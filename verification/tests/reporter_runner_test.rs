use cli_testing_specialist::config::loader::default_config_path;
use cli_testing_specialist::error::CliTestError;
use cli_testing_specialist::reporter::{HtmlReporter, JunitReporter};
use cli_testing_specialist::runner::BatsExecutor;

#[test]
fn test_xml_escape() {
    assert_eq!(
        JunitReporter::xml_escape("Test <xml> & \"quotes\""),
        "Test &lt;xml&gt; &amp; &quot;quotes&quot;"
    );
    assert_eq!(JunitReporter::xml_escape("A & B"), "A &amp; B");
    assert_eq!(JunitReporter::xml_escape("'single'"), "&apos;single&apos;");
}

#[test]
fn test_html_escape() {
    assert_eq!(
        HtmlReporter::html_escape("Test <script>alert('xss')</script>"),
        "Test &lt;script&gt;alert(&#39;xss&#39;)&lt;/script&gt;"
    );
    assert_eq!(HtmlReporter::html_escape("A & B"), "A &amp; B");
    assert_eq!(HtmlReporter::html_escape("\"quoted\""), "&quot;quoted&quot;");
}

#[test]
fn test_embedded_assets_nonempty() {
    assert!(!HtmlReporter::embedded_bootstrap_css().is_empty());
    assert!(!HtmlReporter::embedded_css().is_empty());
    assert!(!HtmlReporter::embedded_javascript().is_empty());
}

#[test]
fn test_executor_creation() {
    let executor = BatsExecutor::new("test-cli".to_string(), Some("1.0.0".to_string()));
    assert_eq!(executor.binary_name, "test-cli");
    assert_eq!(executor.binary_version, Some("1.0.0".to_string()));
    assert_eq!(executor.timeout, 300);

    let custom = BatsExecutor::with_timeout("cli".to_string(), None, 600);
    assert_eq!(custom.timeout, 600);
}

#[test]
fn test_executor_skip_categories() {
    let executor = BatsExecutor::new("cli".to_string(), None)
        .with_skip_categories(vec!["performance".to_string()]);
    assert_eq!(
        executor.skip_categories,
        Some(vec!["performance".to_string()])
    );
}

#[test]
fn test_default_config_path() {
    assert_eq!(default_config_path(), ".cli-test-config.yml");
}

#[test]
fn test_error_messages_hide_directories() {
    let err = CliTestError::BinaryNotFound("/very/secret/layout/tool".to_string());
    let message = err.message();
    assert_eq!(message, "Binary not found: tool");
    assert!(!message.contains("secret"));

    let invalid = CliTestError::InvalidHelpOutput;
    assert_eq!(invalid.message(), "Invalid help output");
}
