use cli_testing_specialist::types::analysis::{count_options, count_subcommands};
use cli_testing_specialist::types::{
    Assertion, NoArgsBehavior, SecuritySeverity, Subcommand, TestCase, TestCategory, TestPriority,
    TestStatus,
};
use std::str::FromStr;

#[test]
fn test_behavior_as_str() {
    assert_eq!(NoArgsBehavior::ShowHelp.as_str(), "show_help");
    assert_eq!(
        NoArgsBehavior::RequireSubcommand.as_str(),
        "require_subcommand"
    );
    assert_eq!(NoArgsBehavior::Interactive.as_str(), "interactive");
}

#[test]
fn test_expected_exit_code() {
    assert_eq!(NoArgsBehavior::ShowHelp.expected_exit_code(), Some(0));
    assert_eq!(NoArgsBehavior::RequireSubcommand.expected_exit_code(), None);
    assert_eq!(NoArgsBehavior::Interactive.expected_exit_code(), Some(0));
}

#[test]
fn test_expected_output_pattern() {
    assert_eq!(
        NoArgsBehavior::ShowHelp.expected_output_pattern(),
        Some("Usage:")
    );
    assert_eq!(
        NoArgsBehavior::RequireSubcommand.expected_output_pattern(),
        Some("error")
    );
    assert_eq!(NoArgsBehavior::Interactive.expected_output_pattern(), None);
}

#[test]
fn no_args_behavior_test_default() {
    let behavior: NoArgsBehavior = Default::default();
    assert_eq!(behavior, NoArgsBehavior::ShowHelp);
}

#[test]
fn test_priority_as_str() {
    assert_eq!(TestPriority::Critical.as_str(), "critical");
    assert_eq!(TestPriority::Important.as_str(), "important");
    assert_eq!(TestPriority::SecurityCheck.as_str(), "security_check");
}

#[test]
fn test_is_security_check() {
    assert!(!TestPriority::Critical.is_security_check());
    assert!(!TestPriority::Important.is_security_check());
    assert!(TestPriority::SecurityCheck.is_security_check());
}

#[test]
fn test_priority_test_default() {
    let priority: TestPriority = Default::default();
    assert_eq!(priority, TestPriority::Important);
}

#[test]
fn test_status_is_failure() {
    assert!(TestStatus::Failed.is_failure());
    assert!(TestStatus::Timeout.is_failure());
    assert!(!TestStatus::Passed.is_failure());
    assert!(!TestStatus::Skipped.is_failure());
}

#[test]
fn test_status_is_success() {
    assert!(TestStatus::Passed.is_success());
    assert!(!TestStatus::Failed.is_success());
    assert!(!TestStatus::Skipped.is_success());
    assert!(!TestStatus::Timeout.is_success());
}

#[test]
fn test_severity_strings() {
    assert_eq!(SecuritySeverity::Critical.as_str(), "critical");
    assert_eq!(SecuritySeverity::Info.badge_color(), "secondary");
    assert_eq!(SecuritySeverity::High.badge_color(), "warning");
}

#[test]
fn test_test_case_builder() {
    let test = TestCase::new(
        "basic-001".to_string(),
        "Help display test".to_string(),
        TestCategory::Basic,
        "cli-test --help".to_string(),
    )
    .with_exit_code(0)
    .with_assertion(Assertion::OutputContains("Usage:".to_string()))
    .with_tag("basic".to_string());

    assert_eq!(test.id, "basic-001");
    assert_eq!(test.expected_exit, 0);
    assert_eq!(test.assertions.len(), 1);
    assert_eq!(test.tags.len(), 1);
}

#[test]
fn test_category_as_str() {
    assert_eq!(TestCategory::Security.as_str(), "security");
    assert_eq!(
        TestCategory::DirectoryTraversal.as_str(),
        "directory-traversal"
    );
}

#[test]
fn test_category_from_str() {
    assert_eq!(
        TestCategory::from_str("security").unwrap(),
        TestCategory::Security
    );
    assert_eq!(
        TestCategory::from_str("multi-shell").unwrap(),
        TestCategory::MultiShell
    );
    assert_eq!(
        TestCategory::from_str("multishell").unwrap(),
        TestCategory::MultiShell
    );
    assert!(TestCategory::from_str("invalid").is_err());
}

#[test]
fn test_category_all() {
    let categories = TestCategory::all();
    assert_eq!(categories.len(), 9);
    assert!(categories.contains(&TestCategory::Security));
}

#[test]
fn test_subcommand_recursion() {
    let nested = Subcommand {
        name: "nested".to_string(),
        description: None,
        options: vec![],
        required_args: vec![],
        subcommands: vec![],
        depth: 2,
    };

    let parent = Subcommand {
        name: "parent".to_string(),
        description: None,
        options: vec![],
        required_args: vec![],
        subcommands: vec![nested],
        depth: 1,
    };

    assert_eq!(parent.subcommands.len(), 1);
    assert_eq!(parent.subcommands[0].depth, 2);
}

#[test]
fn test_count_subcommands_recursive() {
    let subcommands = vec![
        Subcommand {
            name: "cmd1".to_string(),
            description: None,
            options: vec![],
            required_args: vec![],
            subcommands: vec![Subcommand {
                name: "subcmd1".to_string(),
                description: None,
                options: vec![],
                required_args: vec![],
                subcommands: vec![],
                depth: 1,
            }],
            depth: 0,
        },
        Subcommand {
            name: "cmd2".to_string(),
            description: None,
            options: vec![],
            required_args: vec![],
            subcommands: vec![],
            depth: 0,
        },
    ];

    assert_eq!(count_subcommands(&subcommands), 3); // 2 top-level + 1 nested
    assert_eq!(count_options(&subcommands), 0);
}
