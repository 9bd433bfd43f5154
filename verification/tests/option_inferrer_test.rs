use cli_testing_specialist::analyzer::option_inferrer::{
    apply_numeric_constraints, apply_numeric_constraints_with, load_enum_values,
    load_enum_values_with, EnumDefinition, NumericConstraint, OptionInferrer,
};
use cli_testing_specialist::types::{CliOption, OptionType};

#[test]
fn test_extract_option_name() {
    let inferrer = OptionInferrer::default();

    let option = CliOption {
        short: None,
        long: Some("--timeout".to_string()),
        description: None,
        option_type: OptionType::String,
        required: false,
        default_value: None,
    };

    assert_eq!(inferrer.extract_option_name(&option), "timeout");
}

#[test]
fn test_extract_option_name_short() {
    let inferrer = OptionInferrer::default();

    let option = CliOption {
        short: Some("-p".to_string()),
        long: None,
        description: None,
        option_type: OptionType::String,
        required: false,
        default_value: None,
    };

    assert_eq!(inferrer.extract_option_name(&option), "p");
}

#[test]
fn test_infer_type_timeout() {
    let inferrer = OptionInferrer::default();

    let mut option = CliOption {
        short: None,
        long: Some("--timeout".to_string()),
        description: None,
        option_type: OptionType::String,
        required: false,
        default_value: None,
    };

    let inferred_type = inferrer.infer_type(&option);

    // Should be numeric due to "timeout" keyword
    assert!(matches!(inferred_type, OptionType::Numeric { .. }));

    option.option_type = inferred_type;
    let mut options = vec![option];
    apply_numeric_constraints(&mut options);

    // Check constraints were applied
    if let OptionType::Numeric { min, max } = &options[0].option_type {
        assert_eq!(*min, Some(0));
        assert_eq!(*max, Some(3600));
    }
}

#[test]
fn test_infer_type_path() {
    let inferrer = OptionInferrer::default();

    let option = CliOption {
        short: None,
        long: Some("--config".to_string()),
        description: None,
        option_type: OptionType::String,
        required: false,
        default_value: None,
    };

    let inferred_type = inferrer.infer_type(&option);

    // Should be path due to "config" keyword
    assert!(matches!(inferred_type, OptionType::Path));
}

#[test]
fn test_infer_type_enum() {
    let inferrer = OptionInferrer::default();

    let option = CliOption {
        short: None,
        long: Some("--format".to_string()),
        description: None,
        option_type: OptionType::String,
        required: false,
        default_value: None,
    };

    let inferred_type = inferrer.infer_type(&option);

    // Should be enum due to "format" keyword
    assert!(matches!(inferred_type, OptionType::Enum { .. }));
}

#[test]
fn test_infer_type_flag() {
    let inferrer = OptionInferrer::default();

    let option = CliOption {
        short: None,
        long: Some("--verbose".to_string()),
        description: None,
        option_type: OptionType::Flag,
        required: false,
        default_value: None,
    };

    let inferred_type = inferrer.infer_type(&option);

    // Should remain flag
    assert!(matches!(inferred_type, OptionType::Flag));
}

#[test]
fn test_apply_numeric_constraints_port() {
    let mut options = vec![CliOption {
        short: None,
        long: Some("--port".to_string()),
        description: None,
        option_type: OptionType::Numeric {
            min: None,
            max: None,
        },
        required: false,
        default_value: None,
    }];

    apply_numeric_constraints(&mut options);

    if let OptionType::Numeric { min, max } = &options[0].option_type {
        assert_eq!(*min, Some(1));
        assert_eq!(*max, Some(65535));
    } else {
        panic!("Expected Numeric type");
    }
}

#[test]
fn test_numeric_bounds_always_paired() {
    // A numeric option no alias matches still receives both bounds.
    let mut options = vec![CliOption {
        short: None,
        long: Some("--obscure-number".to_string()),
        description: None,
        option_type: OptionType::Numeric {
            min: None,
            max: None,
        },
        required: false,
        default_value: None,
    }];
    apply_numeric_constraints(&mut options);
    if let OptionType::Numeric { min, max } = &options[0].option_type {
        assert_eq!(min.is_some(), max.is_some());
        assert!(min.is_some());
    } else {
        panic!("Expected Numeric type");
    }
}

#[test]
fn test_load_enum_values_format() {
    let mut options = vec![CliOption {
        short: None,
        long: Some("--format".to_string()),
        description: None,
        option_type: OptionType::Enum { values: vec![] },
        required: false,
        default_value: None,
    }];

    load_enum_values(&mut options);

    if let OptionType::Enum { values } = &options[0].option_type {
        assert!(!values.is_empty());
        assert!(values.contains(&"json".to_string()));
        assert!(values.contains(&"yaml".to_string()));
    } else {
        panic!("Expected Enum type");
    }
}

#[test]
fn test_partial_match() {
    let inferrer = OptionInferrer::default();

    let option = CliOption {
        short: None,
        long: Some("--connect-timeout".to_string()),
        description: None,
        option_type: OptionType::String,
        required: false,
        default_value: None,
    };

    let inferred_type = inferrer.infer_type(&option);

    // Should match "timeout" keyword via partial match
    assert!(matches!(inferred_type, OptionType::Numeric { .. }));
}

#[test]
fn test_apply_numeric_constraints_with_custom_table() {
    let table = vec![NumericConstraint {
        aliases: vec!["workers".to_string()],
        min: 1,
        max: 64,
    }];
    let mut options = vec![CliOption {
        short: None,
        long: Some("--workers".to_string()),
        description: None,
        option_type: OptionType::Numeric {
            min: None,
            max: None,
        },
        required: false,
        default_value: None,
    }];
    apply_numeric_constraints_with(&mut options, &table);
    assert_eq!(
        options[0].option_type,
        OptionType::Numeric {
            min: Some(1),
            max: Some(64)
        }
    );
}

#[test]
fn test_load_enum_values_with_custom_table() {
    let table = vec![EnumDefinition {
        aliases: vec!["region".to_string()],
        values: vec!["north".to_string(), "south".to_string()],
    }];
    let mut options = vec![CliOption {
        short: None,
        long: Some("--region".to_string()),
        description: None,
        option_type: OptionType::Enum { values: vec![] },
        required: false,
        default_value: None,
    }];
    load_enum_values_with(&mut options, &table);
    assert_eq!(
        options[0].option_type,
        OptionType::Enum {
            values: vec!["north".to_string(), "south".to_string()]
        }
    );
}
