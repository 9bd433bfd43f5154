//! Loading and validating the per-tool test configuration.

pub mod loader;
pub mod validator;

pub use loader::default_config_path;
pub use validator::{
    validate_command, validate_config, validate_setup_commands, validate_teardown_commands,
};
