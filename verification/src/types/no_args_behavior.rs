//! The predicted effect of running a tool with zero arguments.

use vstd::prelude::*;

verus! {

/// Expected behavior when a command-line tool is invoked without arguments.
#[derive(Debug, Clone, Copy, PartialEq, Eq, Hash, Structural)]
pub enum NoArgsBehavior {
    /// Show help and exit with code 0.
    ShowHelp,
    /// Require a subcommand: show an error and exit with code 1 or 2.
    RequireSubcommand,
    /// Enter an interactive session.
    Interactive,
}

impl NoArgsBehavior {
    /// Behavior name as a snake_case string.
    pub fn as_str(&self) -> (r: &'static str)
        ensures
            *self == NoArgsBehavior::ShowHelp ==> r@ == "show_help"@,
            *self == NoArgsBehavior::RequireSubcommand ==> r@ == "require_subcommand"@,
            *self == NoArgsBehavior::Interactive ==> r@ == "interactive"@,
    {
        match self {
            NoArgsBehavior::ShowHelp => "show_help",
            NoArgsBehavior::RequireSubcommand => "require_subcommand",
            NoArgsBehavior::Interactive => "interactive",
        }
    }

    /// The exit code a test should expect, where one code is determined.
    pub fn expected_exit_code(&self) -> (r: Option<i32>)
        ensures
            r == (match *self {
                NoArgsBehavior::ShowHelp => Some(0i32),
                NoArgsBehavior::RequireSubcommand => None::<i32>,
                NoArgsBehavior::Interactive => Some(0i32),
            }),
    {
        match self {
            NoArgsBehavior::ShowHelp => Some(0),
            NoArgsBehavior::RequireSubcommand => None,
            NoArgsBehavior::Interactive => Some(0),
        }
    }

    /// A substring the output is expected to contain, if any.
    pub fn expected_output_pattern(&self) -> (r: Option<&'static str>)
        ensures
            *self == NoArgsBehavior::ShowHelp ==> r is Some && r->0@ == "Usage:"@,
            *self == NoArgsBehavior::RequireSubcommand ==> r is Some && r->0@ == "error"@,
            *self == NoArgsBehavior::Interactive ==> r is None,
    {
        match self {
            NoArgsBehavior::ShowHelp => Some("Usage:"),
            NoArgsBehavior::RequireSubcommand => Some("error"),
            NoArgsBehavior::Interactive => None,
        }
    }

    /// Human-readable name.
    pub fn display_name(&self) -> (r: &'static str)
        ensures
            *self == NoArgsBehavior::ShowHelp ==> r@ == "Show Help"@,
            *self == NoArgsBehavior::RequireSubcommand ==> r@ == "Require Subcommand"@,
            *self == NoArgsBehavior::Interactive ==> r@ == "Interactive Mode"@,
    {
        match self {
            NoArgsBehavior::ShowHelp => "Show Help",
            NoArgsBehavior::RequireSubcommand => "Require Subcommand",
            NoArgsBehavior::Interactive => "Interactive Mode",
        }
    }

    /// One-sentence description for documentation.
    pub fn description(&self) -> (r: &'static str)
        ensures
            *self == NoArgsBehavior::ShowHelp ==> r@
                == "Displays help text and exits successfully when invoked without arguments"@,
            *self == NoArgsBehavior::RequireSubcommand ==> r@
                == "Requires a subcommand and exits with error when invoked without arguments"@,
            *self == NoArgsBehavior::Interactive ==> r@
                == "Enters interactive mode (REPL) when invoked without arguments"@,
    {
        match self {
            NoArgsBehavior::ShowHelp => {
                "Displays help text and exits successfully when invoked without arguments"
            },
            NoArgsBehavior::RequireSubcommand => {
                "Requires a subcommand and exits with error when invoked without arguments"
            },
            NoArgsBehavior::Interactive => {
                "Enters interactive mode (REPL) when invoked without arguments"
            },
        }
    }
}

impl Default for NoArgsBehavior {
    /// The safest assumption: showing help.
    fn default() -> (r: Self)
        ensures
            r == NoArgsBehavior::ShowHelp,
    {
        NoArgsBehavior::ShowHelp
    }
}

} // verus!
