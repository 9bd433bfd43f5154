use cli_testing_specialist::analyzer::cli_parser::{
    extract_version, find_long_flag, find_short_flag, has_value_pattern, CliParser,
};
use cli_testing_specialist::error::CliTestError;

#[test]
fn test_short_option_regex() {
    assert!(find_short_flag("-h").is_some());
    assert!(find_short_flag("-v ").is_some());
    assert!(find_short_flag("-f,").is_some());
    assert!(find_short_flag("--help").is_none());
}

#[test]
fn test_long_option_regex() {
    assert!(find_long_flag("--help").is_some());
    assert!(find_long_flag("--verbose").is_some());
    assert!(find_long_flag("--max-size").is_some());
    assert!(find_long_flag("-h").is_none());
}

#[test]
fn test_version_pattern_regex() {
    assert!(extract_version("1.0.0").is_some());
    assert!(extract_version("2.5.3").is_some());
    assert!(extract_version("1.0.0-alpha.1").is_some());
    assert!(extract_version("curl 7.64.1").is_some());
}

#[test]
fn test_option_with_value_regex() {
    assert!(has_value_pattern("--name <value>"));
    assert!(has_value_pattern("--file <path>"));
    assert!(!has_value_pattern("--verbose"));
}

#[test]
fn test_extract_version() {
    assert_eq!(extract_version("curl 7.64.1"), Some("7.64.1".to_string()));
    assert_eq!(extract_version("version 1.0.0"), Some("1.0.0".to_string()));
    assert_eq!(extract_version("no version here"), None);
}

#[test]
fn test_parse_options_basic() {
    let parser = CliParser::new();
    let help_output = r#"
Usage: test [OPTIONS]

Options:
  -h, --help       Print help information
  -v, --verbose    Enable verbose output
      --name <VALUE>  Set name value
"#;

    let options = parser.parse_options(help_output);

    assert_eq!(options.len(), 3);

    // Check --help option
    assert!(options.iter().any(|o| o.long == Some("--help".to_string())));
    assert!(options.iter().any(|o| o.short == Some("-h".to_string())));

    // Check --verbose option
    assert!(options
        .iter()
        .any(|o| o.long == Some("--verbose".to_string())));
}

#[test]
fn test_parse_options_deduplication() {
    let parser = CliParser::new();
    let help_output = r#"
  -h, --help    Help text
  -h, --help    Duplicate help text
"#;

    let options = parser.parse_options(help_output);

    // Should only have one option despite duplicate
    assert_eq!(options.len(), 1);
}

#[test]
fn test_parse_options_types_and_descriptions() {
    let parser = CliParser::new();
    let options = parser.parse_options("  -o, --output <FILE>  Where to write\n  -q  Quiet mode\n");
    assert_eq!(options.len(), 2);
    assert_eq!(options[0].long, Some("--output".to_string()));
    assert_eq!(options[0].description, Some("Where to write".to_string()));
    assert!(matches!(
        options[0].option_type,
        cli_testing_specialist::types::OptionType::String
    ));
    assert_eq!(options[1].short, Some("-q".to_string()));
    assert_eq!(options[1].long, None);
    assert!(matches!(
        options[1].option_type,
        cli_testing_specialist::types::OptionType::Flag
    ));
}

#[test]
fn test_parse_required_args_first_usage_line() {
    let parser = CliParser::new();
    let args = parser.parse_required_args("Usage: tool <FILE> <OUTPUT>\nUsage: tool <OTHER>\n");
    assert_eq!(args, vec!["FILE".to_string(), "OUTPUT".to_string()]);

    let none = parser.parse_required_args("no usage line here\n");
    assert!(none.is_empty());
}

#[test]
fn test_analyze_assembles_record() {
    let parser = CliParser::new();
    let help = "Usage: demo [OPTIONS]\n\nOptions:\n  -h, --help  Print help\n".to_string();
    let versions = vec!["demo 1.2.3".to_string()];
    let result = parser.analyze(
        "/usr/bin/demo".to_string(),
        "demo".to_string(),
        help.clone(),
        &versions,
        Vec::new(),
        42,
        "2001-02-03T04:05:06Z".to_string(),
    );
    let analysis = result.unwrap();
    assert_eq!(analysis.binary_path, "/usr/bin/demo");
    assert_eq!(analysis.binary_name, "demo");
    assert_eq!(analysis.version, Some("1.2.3".to_string()));
    assert!(!analysis.help_output.is_empty());
    assert_eq!(analysis.global_options.len(), 1);
    assert_eq!(analysis.metadata.total_options, 1);
    assert_eq!(analysis.metadata.total_subcommands, 0);
    assert_eq!(analysis.metadata.analysis_duration_ms, 42);
}

#[test]
fn test_analyze_rejects_blank_help() {
    let parser = CliParser::new();
    let result = parser.analyze(
        "/usr/bin/demo".to_string(),
        "demo".to_string(),
        "   \n\t\n".to_string(),
        &Vec::new(),
        Vec::new(),
        1,
        String::new(),
    );
    assert!(matches!(result, Err(CliTestError::InvalidHelpOutput)));
}

#[test]
fn test_choose_help_output_first_nonblank_wins() {
    let parser = CliParser::new();

    // A failed probe and a blank success are both passed over.
    let outputs = vec![
        None,
        Some("   \n".to_string()),
        Some("Usage: demo [OPTIONS]\n".to_string()),
    ];
    assert_eq!(
        parser.choose_help_output(&outputs),
        Some("Usage: demo [OPTIONS]\n".to_string())
    );

    // The first usable output wins even when later ones exist.
    let outputs = vec![
        Some("first help".to_string()),
        Some("second help".to_string()),
    ];
    assert_eq!(
        parser.choose_help_output(&outputs),
        Some("first help".to_string())
    );

    // A chain with nothing usable selects nothing.
    let outputs = vec![None, Some(String::new()), Some("\t".to_string())];
    assert_eq!(parser.choose_help_output(&outputs), None);
}
