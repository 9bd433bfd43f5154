use cli_testing_specialist::analyzer::behavior_inferrer::{BehaviorInferrer, NoArgsProbe};
use cli_testing_specialist::types::{CliAnalysis, NoArgsBehavior, Subcommand};

fn create_mock_analysis(binary_name: &str, help_output: &str, subcommands: Vec<&str>) -> CliAnalysis {
    let mut analysis = CliAnalysis::new(
        format!("/usr/bin/{}", binary_name),
        binary_name.to_string(),
        help_output.to_string(),
    );

    analysis.subcommands = subcommands
        .iter()
        .map(|name| Subcommand {
            name: name.to_string(),
            description: None,
            options: vec![],
            required_args: vec![],
            subcommands: vec![],
            depth: 0,
        })
        .collect();

    analysis
}

#[test]
fn test_infer_require_subcommand_from_usage() {
    let inferrer = BehaviorInferrer::new();

    // Test with <SUBCOMMAND> pattern
    let help_output = "Usage: git <SUBCOMMAND>\n\nAvailable commands:\n  clone\n  pull";
    let analysis = create_mock_analysis("git", help_output, vec!["clone", "pull"]);

    let behavior = inferrer.infer_no_args_behavior(&analysis, &NoArgsProbe::Inconclusive);
    assert_eq!(behavior, NoArgsBehavior::RequireSubcommand);
}

#[test]
fn test_infer_require_subcommand_from_command_pattern() {
    let inferrer = BehaviorInferrer::new();

    // Test with COMMAND pattern (no brackets)
    let help_output = "Usage: docker COMMAND\n\nCommands:\n  run\n  build";
    let analysis = create_mock_analysis("docker", help_output, vec!["run", "build"]);

    let behavior = inferrer.infer_no_args_behavior(&analysis, &NoArgsProbe::Inconclusive);
    assert_eq!(behavior, NoArgsBehavior::RequireSubcommand);
}

#[test]
fn test_infer_show_help_from_usage() {
    let inferrer = BehaviorInferrer::new();

    // Test with [OPTIONS] pattern
    let help_output = "Usage: backup-suite [OPTIONS]\n\nOptions:\n  --help";
    let analysis = create_mock_analysis("backup-suite", help_output, vec![]);

    let behavior = inferrer.infer_no_args_behavior(&analysis, &NoArgsProbe::Inconclusive);
    assert_eq!(behavior, NoArgsBehavior::ShowHelp);
}

#[test]
fn test_infer_require_subcommand_from_subcommands() {
    let inferrer = BehaviorInferrer::new();

    // Test with no clear Usage pattern but has subcommands
    let help_output = "A CLI tool\n\nCommands:\n  start\n  stop";
    let analysis = create_mock_analysis("service", help_output, vec!["start", "stop"]);

    let behavior = inferrer.infer_no_args_behavior(&analysis, &NoArgsProbe::Inconclusive);
    assert_eq!(behavior, NoArgsBehavior::RequireSubcommand);
}

#[test]
fn test_infer_interactive_psql() {
    let inferrer = BehaviorInferrer::new();

    let help_output = "Usage: psql [OPTIONS]\n\nOptions:\n  --help";
    let analysis = create_mock_analysis("psql", help_output, vec![]);

    let behavior = inferrer.infer_no_args_behavior(&analysis, &NoArgsProbe::Inconclusive);
    assert_eq!(behavior, NoArgsBehavior::Interactive);
}

#[test]
fn test_infer_interactive_python() {
    let inferrer = BehaviorInferrer::new();

    let help_output = "Usage: python [OPTIONS]\n\nOptions:\n  -h";
    let analysis = create_mock_analysis("python3", help_output, vec![]);

    let behavior = inferrer.infer_no_args_behavior(&analysis, &NoArgsProbe::Inconclusive);
    assert_eq!(behavior, NoArgsBehavior::Interactive);
}

#[test]
fn test_default_to_show_help() {
    let inferrer = BehaviorInferrer::new();

    // No clear pattern: defaults to ShowHelp
    let help_output = "A simple tool\n\nOptions:\n  --verbose";
    let analysis = create_mock_analysis("unknown-tool", help_output, vec![]);

    let behavior = inferrer.infer_no_args_behavior(&analysis, &NoArgsProbe::Inconclusive);
    assert_eq!(behavior, NoArgsBehavior::ShowHelp);
}

#[test]
fn test_exit_code_decides_before_usage() {
    let inferrer = BehaviorInferrer::new();
    let analysis = create_mock_analysis("plaintool", "Usage: plaintool <FILE>", vec![]);

    assert_eq!(
        inferrer.infer_no_args_behavior(&analysis, &NoArgsProbe::Exited(0)),
        NoArgsBehavior::ShowHelp
    );
    assert_eq!(
        inferrer.infer_no_args_behavior(&analysis, &NoArgsProbe::Exited(1)),
        NoArgsBehavior::RequireSubcommand
    );
    assert_eq!(
        inferrer.infer_no_args_behavior(&analysis, &NoArgsProbe::Exited(2)),
        NoArgsBehavior::RequireSubcommand
    );
    // An unknown exit code falls back to the safe default.
    assert_eq!(
        inferrer.infer_no_args_behavior(&analysis, &NoArgsProbe::Exited(127)),
        NoArgsBehavior::ShowHelp
    );
}

#[test]
fn test_extract_usage_pattern() {
    let inferrer = BehaviorInferrer::new();

    let help = "Usage: git <SUBCOMMAND>\n\nOptions:";
    let pattern = inferrer.extract_usage_pattern(help);
    assert_eq!(pattern, Some("git <SUBCOMMAND>".to_string()));

    let help2 = "usage: backup-suite [OPTIONS]";
    let pattern2 = inferrer.extract_usage_pattern(help2);
    assert_eq!(pattern2, Some("backup-suite [OPTIONS]".to_string()));
}

#[test]
fn test_requires_subcommand_from_usage() {
    let inferrer = BehaviorInferrer::new();

    assert!(inferrer.requires_subcommand_from_usage("git <SUBCOMMAND>"));
    assert!(inferrer.requires_subcommand_from_usage("docker <COMMAND>"));
    assert!(inferrer.requires_subcommand_from_usage("cli COMMAND"));
    assert!(!inferrer.requires_subcommand_from_usage("cli [OPTIONS]"));
    assert!(!inferrer.requires_subcommand_from_usage("cli [command]"));
}

#[test]
fn test_is_optional_only_from_usage() {
    let inferrer = BehaviorInferrer::new();

    assert!(inferrer.is_optional_only_from_usage("backup-suite [OPTIONS]"));
    assert!(inferrer.is_optional_only_from_usage("tool [options] [file]"));
    assert!(!inferrer.is_optional_only_from_usage("tool <FILE> [OPTIONS]"));
    assert!(!inferrer.is_optional_only_from_usage("tool COMMAND"));
}

#[test]
fn test_is_interactive_tool() {
    let inferrer = BehaviorInferrer::new();

    assert!(inferrer.is_interactive_tool("psql"));
    assert!(inferrer.is_interactive_tool("python3"));
    assert!(inferrer.is_interactive_tool("node"));
    assert!(inferrer.is_interactive_tool("mysql"));
    assert!(!inferrer.is_interactive_tool("git"));
    assert!(!inferrer.is_interactive_tool("backup-suite"));
}
