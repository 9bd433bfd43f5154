use cli_testing_specialist::cli::commands::{
    find_closest_matches, levenshtein_distance, parse_categories, ReportFormat,
};
use cli_testing_specialist::types::TestCategory;

#[test]
fn test_report_format_extension() {
    assert_eq!(ReportFormat::Markdown.extension(), "md");
    assert_eq!(ReportFormat::Json.extension(), "json");
    assert_eq!(ReportFormat::Html.extension(), "html");
    assert_eq!(ReportFormat::Junit.extension(), "xml");
}

#[test]
fn test_levenshtein_distance() {
    assert_eq!(levenshtein_distance("", ""), 0);
    assert_eq!(levenshtein_distance("hello", "hello"), 0);
    assert_eq!(levenshtein_distance("hello", "helo"), 1); // deletion
    assert_eq!(levenshtein_distance("hello", "helllo"), 1); // insertion
    assert_eq!(levenshtein_distance("hello", "hallo"), 1); // substitution
    assert_eq!(levenshtein_distance("security", "secrity"), 1); // deletion
    assert_eq!(levenshtein_distance("basic", "baisc"), 2); // transposition
    assert_eq!(levenshtein_distance("performance", "perfomance"), 1); // deletion
}

#[test]
fn test_find_closest_matches() {
    let candidates = vec!["basic", "security", "performance", "help"];

    // Exact match (distance 0)
    let matches = find_closest_matches("security", &candidates, 3);
    assert_eq!(matches, vec!["security"]);

    // 1 character typo
    let matches = find_closest_matches("secrity", &candidates, 3);
    assert_eq!(matches, vec!["security"]);

    // 2 character typo
    let matches = find_closest_matches("baisc", &candidates, 3);
    assert_eq!(matches, vec!["basic"]);

    // No close matches (distance > 3)
    let matches = find_closest_matches("xyz", &candidates, 3);
    assert_eq!(matches.len(), 0);

    // Multiple close matches
    let matches = find_closest_matches("perormance", &candidates, 3);
    assert!(matches.contains(&"performance".to_string()));
}

#[test]
fn test_find_closest_matches_with_limit() {
    let candidates = vec!["basic", "bats", "bash", "help"];

    // Should return at most 2 matches
    let matches = find_closest_matches("bas", &candidates, 2);
    assert!(matches.len() <= 2);
    assert!(matches.contains(&"basic".to_string()) || matches.contains(&"bats".to_string()));
}

#[test]
fn test_parse_categories_selection() {
    let all = parse_categories("all", true).unwrap();
    assert_eq!(all.len(), 9);

    let standard = parse_categories("all", false).unwrap();
    assert_eq!(standard.len(), 8);
    assert!(!standard.contains(&TestCategory::DirectoryTraversal));

    let picked = parse_categories("basic, security", false).unwrap();
    assert_eq!(picked, vec![TestCategory::Basic, TestCategory::Security]);

    // Intensive categories are dropped unless asked for.
    let dropped = parse_categories("basic,directory-traversal", false).unwrap();
    assert_eq!(dropped, vec![TestCategory::Basic]);
    let kept = parse_categories("basic,directory-traversal", true).unwrap();
    assert_eq!(
        kept,
        vec![TestCategory::Basic, TestCategory::DirectoryTraversal]
    );

    let invalid = parse_categories("basik", false);
    assert!(invalid.is_err());
    assert!(invalid.unwrap_err().message().contains("basic"));
}
