use cli_testing_specialist::types::config::{
    migrate_config, parse_version, CiSettings, CliTestConfig, GlobalSettings, SecurityAdjustments,
    SkipOption, TestAdjustments,
};
use std::collections::HashMap;

#[test]
fn test_default_values() {
    let config = CliTestConfig {
        version: "1.0".to_string(),
        tool_name: "test".to_string(),
        tool_version: None,
        test_adjustments: TestAdjustments::default(),
        global: GlobalSettings::default(),
        ci: CiSettings::default(),
    };

    assert_eq!(config.global.timeout, 30);
    assert_eq!(config.global.retry_count, 0);
    assert!(!config.global.verbose);
    assert!(config.ci.auto_detect);
    assert!(config.ci.skip_tty_tests);
}

#[test]
fn test_parse_version() {
    assert_eq!(parse_version("1.0.0").unwrap(), (1, 0, 0));
    assert_eq!(parse_version("1.5.3").unwrap(), (1, 5, 3));
    assert_eq!(parse_version("2.0").unwrap(), (2, 0, 0));
    assert_eq!(parse_version("1.9").unwrap(), (1, 9, 0));
}

#[test]
fn test_parse_version_invalid() {
    assert!(parse_version("").is_err());
    assert!(parse_version("1").is_err());
    assert!(parse_version("abc").is_err());
    assert!(parse_version("1.x.0").is_err());
}

#[test]
fn test_migration_same_version() {
    let config = CliTestConfig {
        version: CliTestConfig::current_version().to_string(),
        tool_name: "test-cli".to_string(),
        tool_version: None,
        test_adjustments: TestAdjustments::default(),
        global: GlobalSettings::default(),
        ci: CiSettings::default(),
    };

    let migrated = migrate_config(config.clone()).unwrap();

    // No migration should occur
    assert_eq!(migrated.version, config.version);
    assert_eq!(migrated.tool_name, config.tool_name);
}

#[test]
fn test_migration_old_to_current() {
    let mut config = CliTestConfig {
        version: "1.0".to_string(),
        tool_name: "test-cli".to_string(),
        tool_version: None,
        test_adjustments: TestAdjustments::default(),
        global: GlobalSettings::default(),
        ci: CiSettings::default(),
    };

    // Simulate old config without optional fields
    config.test_adjustments.path = None;
    config.test_adjustments.multi_shell = None;
    config.test_adjustments.performance = None;

    let migrated = migrate_config(config).unwrap();

    // Version should be updated
    assert_eq!(migrated.version, CliTestConfig::current_version());

    // Optional fields should be initialized with defaults
    assert!(migrated.test_adjustments.path.is_some());
    assert!(migrated.test_adjustments.multi_shell.is_some());
    assert!(migrated.test_adjustments.performance.is_some());

    // Global env vars should have defaults
    assert!(migrated.global.env_vars.contains_key("LANG"));
    assert!(migrated.global.env_vars.contains_key("TZ"));
}

#[test]
fn test_migration_preserves_existing_data() {
    let mut config = CliTestConfig {
        version: "1.0".to_string(),
        tool_name: "my-tool".to_string(),
        tool_version: Some("2.0.0".to_string()),
        test_adjustments: TestAdjustments::default(),
        global: GlobalSettings {
            timeout: 60,
            retry_count: 3,
            verbose: true,
            env_vars: {
                let mut map = HashMap::new();
                map.insert("CUSTOM_VAR".to_string(), "value".to_string());
                map
            },
        },
        ci: CiSettings::default(),
    };

    config.test_adjustments.security = Some(SecurityAdjustments {
        skip_options: vec![SkipOption {
            name: "lang".to_string(),
            reason: "test".to_string(),
            category: None,
        }],
        custom_tests: vec![],
    });

    let migrated = migrate_config(config.clone()).unwrap();

    // Version should be updated
    assert_eq!(migrated.version, CliTestConfig::current_version());

    // But existing data should be preserved
    assert_eq!(migrated.tool_name, "my-tool");
    assert_eq!(migrated.tool_version, Some("2.0.0".to_string()));
    assert_eq!(migrated.global.timeout, 60);
    assert_eq!(migrated.global.retry_count, 3);
    assert!(migrated.global.verbose);

    // Custom env vars should be preserved
    assert_eq!(
        migrated.global.env_vars.get("CUSTOM_VAR"),
        Some(&"value".to_string())
    );

    // Security adjustments should be preserved
    assert!(migrated.test_adjustments.security.is_some());
    let security = migrated.test_adjustments.security.unwrap();
    assert_eq!(security.skip_options.len(), 1);
    assert_eq!(security.skip_options[0].name, "lang");
}
