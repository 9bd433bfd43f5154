use cli_testing_specialist::analyzer::subcommand_detector::{
    subcommand_line, SubcommandDetector, MAX_RECURSION_DEPTH,
};
use std::collections::HashSet;

#[test]
fn test_subcommand_pattern() {
    assert!(subcommand_line("  help      Show help information").is_some());
    assert!(subcommand_line("  config    Manage configuration").is_some());
    assert!(subcommand_line("    status    Show status").is_some());
    assert!(subcommand_line("Options:").is_none());
    assert!(subcommand_line("--help").is_none());
}

#[test]
fn test_parse_subcommands_basic() {
    let detector = SubcommandDetector::default();
    let help_output = r#"
Usage: test <command>

Commands:
  help      Show help information
  config    Manage configuration
  status    Show current status

Options:
  -h, --help    Show help
"#;

    let subcommands = detector.parse_subcommands(help_output);

    assert_eq!(subcommands.len(), 3);
    assert!(subcommands.iter().any(|(name, _)| name == "help"));
    assert!(subcommands.iter().any(|(name, _)| name == "config"));
    assert!(subcommands.iter().any(|(name, _)| name == "status"));
}

#[test]
fn test_parse_subcommands_with_description() {
    let detector = SubcommandDetector::default();
    let help_output = r#"
Available Commands:
  init    Initialize a new project
  build   Build the project
"#;

    let subcommands = detector.parse_subcommands(help_output);

    assert_eq!(subcommands.len(), 2);

    let init_cmd = subcommands.iter().find(|(name, _)| name == "init");
    assert!(init_cmd.is_some());
    assert_eq!(init_cmd.unwrap().1, "Initialize a new project");
}

#[test]
fn test_parse_subcommands_empty() {
    let detector = SubcommandDetector::default();
    let help_output = r#"
Usage: test [OPTIONS]

Options:
  -h, --help    Show help
"#;

    let subcommands = detector.parse_subcommands(help_output);

    assert!(subcommands.is_empty());
}

#[test]
fn test_parse_subcommands_multiple_sections() {
    let detector = SubcommandDetector::default();
    let help_output = r#"
Commands:
  help    Show help

Options:
  --verbose    Verbose output

Commands:
  config    Configuration
"#;

    let subcommands = detector.parse_subcommands(help_output);

    // Should find both "help" and "config"
    assert_eq!(subcommands.len(), 2);
}

#[test]
fn test_circular_reference_prevention() {
    let _detector = SubcommandDetector::default();
    let mut visited = HashSet::new();

    // Simulate visiting a subcommand twice
    visited.insert("/bin/test-help".to_string());

    // This should be prevented by the visited set
    // (In real scenario, this is tested via the discovery walk)
    assert!(visited.contains("/bin/test-help"));
}

#[test]
fn test_max_depth_limit() {
    let detector = SubcommandDetector::with_max_depth(2).unwrap();
    assert_eq!(detector.max_depth, 2);

    let detector_default = SubcommandDetector::default();
    assert_eq!(detector_default.max_depth, MAX_RECURSION_DEPTH);
}

#[test]
fn test_discovery_walk_skips_revisited_names() {
    // Self-referential help text: the subcommand lists itself.
    let detector = SubcommandDetector::with_max_depth(3).unwrap();
    let root_help = "Commands:\n  alpha    First level\n";
    let alpha_help = "Commands:\n  alpha    Lists itself\n";

    let mut walk = detector.start_discovery("/bin/selfref", root_help);
    let first = walk.next_probe();
    assert_eq!(first, Some("alpha".to_string()));
    walk.provide_help(Some(alpha_help));
    // The nested "alpha" candidate shares the visitation key and is
    // skipped, so the walk ends without another probe.
    let second = walk.next_probe();
    assert_eq!(second, None);

    let forest = walk.into_result();
    assert_eq!(forest.len(), 1);
    assert_eq!(forest[0].name, "alpha");
    assert!(forest[0].subcommands.is_empty());
    assert_eq!(forest[0].depth, 0);
}

#[test]
fn test_discovery_walk_respects_depth_bound() {
    // Every level lists a fresh name; only depths below the bound are
    // explored.
    let detector = SubcommandDetector::with_max_depth(2).unwrap();
    let root_help = "Commands:\n  outer    First level\n";
    let outer_help = "Commands:\n  inner    Second level\n";

    let mut walk = detector.start_discovery("/bin/deep", root_help);
    assert_eq!(walk.next_probe(), Some("outer".to_string()));
    walk.provide_help(Some(outer_help));
    assert_eq!(walk.next_probe(), Some("inner".to_string()));
    // The inner node sits at the last allowed depth: its own listing
    // would be at the bound and is not explored.
    walk.provide_help(Some("Commands:\n  deeper    Too deep\n"));
    assert_eq!(walk.next_probe(), None);

    let forest = walk.into_result();
    assert_eq!(forest.len(), 1);
    assert_eq!(forest[0].name, "outer");
    assert_eq!(forest[0].depth, 0);
    assert_eq!(forest[0].subcommands.len(), 1);
    assert_eq!(forest[0].subcommands[0].name, "inner");
    assert_eq!(forest[0].subcommands[0].depth, 1);
    assert!(forest[0].subcommands[0].subcommands.is_empty());
}

#[test]
fn test_discovery_walk_drops_failed_probe() {
    let detector = SubcommandDetector::with_max_depth(3).unwrap();
    let root_help = "Commands:\n  good     Works\n  broken   Fails\n";

    let mut walk = detector.start_discovery("/bin/partial", root_help);
    assert_eq!(walk.next_probe(), Some("good".to_string()));
    walk.provide_help(Some("Usage: partial good [OPTIONS]\n"));
    assert_eq!(walk.next_probe(), Some("broken".to_string()));
    walk.provide_help(None);
    assert_eq!(walk.next_probe(), None);

    let forest = walk.into_result();
    assert_eq!(forest.len(), 1);
    assert_eq!(forest[0].name, "good");
}

#[test]
fn test_discovery_walk_parses_candidate_options() {
    let detector = SubcommandDetector::with_max_depth(2).unwrap();
    let root_help = "Commands:\n  serve    Run the server\n";
    let serve_help = "Usage: tool serve <ADDR>\n\nOptions:\n  -p, --port <PORT>  Port to bind\n";

    let mut walk = detector.start_discovery("/bin/tool", root_help);
    assert_eq!(walk.next_probe(), Some("serve".to_string()));
    walk.provide_help(Some(serve_help));
    assert_eq!(walk.next_probe(), None);

    let forest = walk.into_result();
    assert_eq!(forest.len(), 1);
    let serve = &forest[0];
    assert_eq!(serve.description, Some("Run the server".to_string()));
    assert_eq!(serve.required_args, vec!["ADDR".to_string()]);
    assert_eq!(serve.options.len(), 1);
    assert_eq!(serve.options[0].long, Some("--port".to_string()));
    // The port option is typed numeric by inference.
    assert!(matches!(
        serve.options[0].option_type,
        cli_testing_specialist::types::OptionType::Numeric { .. }
    ));
}

#[test]
fn test_discovery_walk_never_repeats_a_listed_name() {
    // The same name listed twice in one section is probed only once.
    let detector = SubcommandDetector::with_max_depth(3).unwrap();
    let root_help = "Commands:\n  dup    First listing\n  dup    Second listing\n";

    let mut walk = detector.start_discovery("/bin/twice", root_help);
    assert_eq!(walk.next_probe(), Some("dup".to_string()));
    walk.provide_help(Some("Usage: twice dup [OPTIONS]\n"));
    assert_eq!(walk.next_probe(), None);

    let forest = walk.into_result();
    assert_eq!(forest.len(), 1);
    assert_eq!(forest[0].description, Some("First listing".to_string()));
}
