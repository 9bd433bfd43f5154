use cli_testing_specialist::generator::TemplateEngine;

#[test]
fn test_template_engine_creation() {
    let engine = TemplateEngine::new();
    assert!(engine.is_ok());
}

#[test]
fn test_load_templates() {
    let mut engine = TemplateEngine::new().unwrap();
    let result = engine.load_templates();

    assert!(result.is_ok());
    let names = engine.available_templates();
    assert_eq!(names.len(), 7); // 7 embedded templates
    assert!(names.contains(&"bats-test".to_string()));
    assert!(names.contains(&"concurrency-test".to_string()));
}

#[test]
fn test_get_template() {
    let mut engine = TemplateEngine::new().unwrap();
    engine.load_templates().unwrap();

    let template = engine.get_template("bats-test");
    assert!(template.is_ok());
    assert!(!template.unwrap().is_empty());
}

#[test]
fn test_get_nonexistent_template() {
    let mut engine = TemplateEngine::new().unwrap();
    engine.load_templates().unwrap();

    let result = engine.get_template("nonexistent");
    assert!(result.is_err());
}

#[test]
fn test_substitute() {
    let engine = TemplateEngine::new().unwrap();

    let template = "Hello ${NAME}, you are ${AGE} years old.";
    let vars = vec![
        ("NAME".to_string(), "Alice".to_string()),
        ("AGE".to_string(), "30".to_string()),
    ];

    let result = engine.substitute(template, &vars);
    assert_eq!(result, "Hello Alice, you are 30 years old.");
}

#[test]
fn test_substitute_missing_variable() {
    let engine = TemplateEngine::new().unwrap();

    let template = "Hello ${NAME}, you are ${AGE} years old.";
    let vars = vec![("NAME".to_string(), "Alice".to_string())];

    let result = engine.substitute(template, &vars);
    // Missing variables are left as-is
    assert_eq!(result, "Hello Alice, you are ${AGE} years old.");
}

#[test]
fn test_available_templates() {
    let mut engine = TemplateEngine::new().unwrap();
    engine.load_templates().unwrap();

    let templates = engine.available_templates();
    assert_eq!(templates.len(), 7);
    assert!(templates.contains(&"bats-test".to_string()));
    assert!(templates.contains(&"performance-test".to_string()));
}

#[test]
fn test_render_replaces_every_occurrence() {
    let mut engine = TemplateEngine::new().unwrap();
    engine.load_templates().unwrap();

    let vars = vec![
        ("SUBCOMMAND".to_string(), "build".to_string()),
        ("BINARY".to_string(), "tool".to_string()),
    ];
    let rendered = engine.render("subcommand-help", &vars).unwrap();
    assert!(rendered.contains("run tool build --help"));
    assert!(!rendered.contains("${SUBCOMMAND}"));
    assert!(!rendered.contains("${BINARY}"));
}
