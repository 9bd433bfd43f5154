//! Classification of what a binary does when run with no arguments.
//!
//! An ordered, first-match-wins chain of strategies: a known-interactive
//! name decides immediately and forbids any probe; otherwise the outcome
//! of one short no-arguments probe decides by exit code; otherwise the
//! usage line, then the presence of subcommands, then the safe default.
//! The probe itself is run by the caller, since interactive tools must
//! never be started blindly; its outcome comes in as a plain value.

use vstd::prelude::*;
use crate::text::{
    scan_non_spaces, scan_spaces, skip_non_spaces, skip_spaces, spec_contains, spec_lines,
    spec_lower, spec_trim, split_lines, substring, trim_str,
};
use crate::types::analysis::CliAnalysis;
use crate::types::no_args_behavior::NoArgsBehavior;

verus! {

/// Outcome of the single short no-arguments probe.
#[derive(Debug, Clone, Copy, PartialEq, Eq, Structural)]
pub enum NoArgsProbe {
    /// The binary exited within the short timeout, with this code.
    Exited(i32),
    /// The probe timed out or could not run; no verdict from it.
    Inconclusive,
}

/// Names of tools known to open an interactive session: database
/// clients, language shells and debuggers.
pub open spec fn spec_interactive_tools() -> Seq<Seq<char>> {
    seq![
        "psql"@,
        "mysql"@,
        "redis-cli"@,
        "mongo"@,
        "mongosh"@,
        "sqlite3"@,
        "python"@,
        "python3"@,
        "node"@,
        "irb"@,
        "php"@,
        "R"@,
        "julia"@,
        "gdb"@,
        "lldb"@,
        "ghci"@,
        "erl"@,
        "iex"@,
    ]
}

/// The binary's name holds the name of a known interactive tool.
pub open spec fn spec_is_interactive(name: Seq<char>) -> bool {
    exists|i: int|
        0 <= i < spec_interactive_tools().len() && spec_contains(
            name,
            #[trigger] spec_interactive_tools()[i],
        )
}

/// What a usage line captures: after optional spaces, `usage:` in any
/// case, then at least one space, the rest of the line.
pub open spec fn spec_usage_capture(t: Seq<char>) -> Option<Seq<char>> {
    let w = scan_spaces(t, 0);
    let w2 = scan_spaces(t, w + 6);
    if w + 6 < t.len() && spec_lower(t.subrange(w, w + 6)) == "usage:"@ && w2 > w + 6 && w2
        < t.len() {
        Some(t.subrange(w2, t.len() as int))
    } else {
        None
    }
}

/// The captured usage pattern of the first line that has one; each line
/// is trimmed before the test.
pub open spec fn spec_usage_of_lines(lines: Seq<Seq<char>>, i: int) -> Option<Seq<char>>
    decreases lines.len() - i,
{
    if i < 0 || i >= lines.len() {
        None
    } else if spec_usage_capture(spec_trim(lines[i])) is Some {
        spec_usage_capture(spec_trim(lines[i]))
    } else {
        spec_usage_of_lines(lines, i + 1)
    }
}

/// The usage pattern of a help text, if any line carries one.
pub open spec fn spec_usage_pattern(help: Seq<char>) -> Option<Seq<char>> {
    spec_usage_of_lines(spec_lines(help), 0)
}

/// The usage pattern demands a subcommand: it holds `<subcommand>` or
/// `<command>` in any case, or a bare ` command`/` subcommand` token
/// that is not bracketed as optional.
pub open spec fn spec_requires_subcommand(p: Seq<char>) -> bool {
    let low = spec_lower(p);
    ||| spec_contains(low, "<subcommand>"@)
    ||| spec_contains(low, "<command>"@)
    ||| ((spec_contains(low, " command"@) || spec_contains(low, " subcommand"@)) && !spec_contains(
        p,
        "[command]"@,
    ) && !spec_contains(p, "[subcommand]"@))
}

/// The usage pattern shows only optional arguments: nothing after the
/// binary name, or an argument part opening with a bracket.
pub open spec fn spec_optional_only(p: Seq<char>) -> bool {
    let a = scan_spaces(p, 0);
    let b = scan_non_spaces(p, a);
    let c = scan_spaces(p, b);
    if a >= p.len() || c >= p.len() {
        true
    } else {
        p[c] == '['
    }
}

/// The classifier's verdict, given the binary name, the help text,
/// whether subcommands were discovered, and the probe outcome. The
/// strategies run in order and the first verdict wins: a known
/// interactive name; the probe's exit code (0 means help, 1 or 2 demand
/// a subcommand, anything else falls back to help); the usage line;
/// discovered subcommands; the safe default of showing help.
pub open spec fn spec_infer_behavior(
    name: Seq<char>,
    help: Seq<char>,
    has_subcommands: bool,
    probe: NoArgsProbe,
) -> NoArgsBehavior {
    if spec_is_interactive(name) {
        NoArgsBehavior::Interactive
    } else {
        match probe {
            NoArgsProbe::Exited(code) => if code == 0 {
                NoArgsBehavior::ShowHelp
            } else if code == 1 || code == 2 {
                NoArgsBehavior::RequireSubcommand
            } else {
                NoArgsBehavior::ShowHelp
            },
            NoArgsProbe::Inconclusive => match spec_usage_pattern(help) {
                Some(p) => if spec_requires_subcommand(p) {
                    NoArgsBehavior::RequireSubcommand
                } else if spec_optional_only(p) {
                    NoArgsBehavior::ShowHelp
                } else if has_subcommands {
                    NoArgsBehavior::RequireSubcommand
                } else {
                    NoArgsBehavior::ShowHelp
                },
                None => if has_subcommands {
                    NoArgsBehavior::RequireSubcommand
                } else {
                    NoArgsBehavior::ShowHelp
                },
            },
        }
    }
}

/// The no-arguments behavior classifier.
pub struct BehaviorInferrer;

impl BehaviorInferrer {
    /// A classifier; it carries no state.
    pub fn new() -> Self {
        BehaviorInferrer
    }

    /// Whether the binary name holds the name of a known interactive
    /// tool. A positive answer must suppress the no-arguments probe.
    pub fn is_interactive_tool(&self, binary_name: &str) -> (r: bool)
        ensures
            r == spec_is_interactive(binary_name@),
    {
        let mut tools: Vec<&'static str> = Vec::new();
        tools.push("psql");
        tools.push("mysql");
        tools.push("redis-cli");
        tools.push("mongo");
        tools.push("mongosh");
        tools.push("sqlite3");
        tools.push("python");
        tools.push("python3");
        tools.push("node");
        tools.push("irb");
        tools.push("php");
        tools.push("R");
        tools.push("julia");
        tools.push("gdb");
        tools.push("lldb");
        tools.push("ghci");
        tools.push("erl");
        tools.push("iex");
        proof {
            assert(tools.deep_view() =~= spec_interactive_tools());
        }
        let n = tools.len();
        let mut i: usize = 0;
        loop
            invariant
                i <= n,
                n == spec_interactive_tools().len(),
                tools.deep_view() == spec_interactive_tools(),
                tools@.len() == n,
                forall|k: int|
                    0 <= k < i ==> !spec_contains(binary_name@, #[trigger] spec_interactive_tools()[k]),
            ensures
                (i < n && spec_contains(binary_name@, spec_interactive_tools()[i as int])) || (i == n
                    && forall|k: int|
                    0 <= k < i ==> !spec_contains(
                        binary_name@,
                        #[trigger] spec_interactive_tools()[k],
                    )),
            decreases n - i,
        {
            if i == n {
                break ;
            }
            proof {
                assert(tools.deep_view()[i as int] == tools@[i as int]@);
            }
            if crate::text::contains_str(binary_name, tools[i]) {
                break ;
            }
            i = i + 1;
        }
        i < n
    }

    /// The usage pattern of a help text: what follows `usage:` on the
    /// first line that carries one.
    pub fn extract_usage_pattern(&self, help_output: &str) -> (r: Option<String>)
        ensures
            match r {
                Some(p) => spec_usage_pattern(help_output@) == Some(p@),
                None => spec_usage_pattern(help_output@) is None,
            },
    {
        let lines = split_lines(help_output);
        let n = lines.len();
        let mut i: usize = 0;
        loop
            invariant
                i <= n,
                n == lines@.len(),
                lines@.map_values(|l: String| l@) == spec_lines(help_output@),
                spec_usage_of_lines(spec_lines(help_output@), 0) == spec_usage_of_lines(
                    spec_lines(help_output@),
                    i as int,
                ),
            ensures
                spec_usage_of_lines(spec_lines(help_output@), 0) == spec_usage_of_lines(
                    spec_lines(help_output@),
                    i as int,
                ),
                i < n ==> spec_usage_capture(spec_trim(spec_lines(help_output@)[i as int])) is Some,
                i == n ==> spec_usage_of_lines(spec_lines(help_output@), 0) is None,
            decreases n - i,
        {
            if i == n {
                break ;
            }
            proof {
                assert(spec_lines(help_output@)[i as int] == lines@[i as int]@);
            }
            let t = trim_str(lines[i].as_str());
            if Self::usage_capture(t.as_str()).is_some() {
                break ;
            }
            i = i + 1;
        }
        if i < n {
            proof {
                assert(spec_lines(help_output@)[i as int] == lines@[i as int]@);
            }
            let t = trim_str(lines[i].as_str());
            Self::usage_capture(t.as_str())
        } else {
            None
        }
    }

    /// What a single, already trimmed line captures as usage pattern.
    fn usage_capture(t: &str) -> (r: Option<String>)
        ensures
            match r {
                Some(p) => spec_usage_capture(t@) == Some(p@),
                None => spec_usage_capture(t@) is None,
            },
    {
        let n = t.unicode_len();
        let w = skip_spaces(t, 0);
        if n - w < 7 {
            return None;
        }
        let head = substring(t, w, w + 6);
        let lowered = crate::text::lowercase_str(head.as_str());
        if !crate::text::str_eq(lowered.as_str(), "usage:") {
            proof {
                assert(spec_lower(t@.subrange(w as int, w + 6 as int)) == lowered@);
            }
            return None;
        }
        let w2 = skip_spaces(t, w + 6);
        if w2 > w + 6 && w2 < n {
            Some(substring(t, w2, n))
        } else {
            None
        }
    }

    /// Whether a usage pattern demands a subcommand.
    pub fn requires_subcommand_from_usage(&self, pattern: &str) -> (r: bool)
        ensures
            r == spec_requires_subcommand(pattern@),
    {
        let low = crate::text::lowercase_str(pattern);
        let l = low.as_str();
        if crate::text::contains_str(l, "<subcommand>") || crate::text::contains_str(
            l,
            "<command>",
        ) {
            return true;
        }
        if crate::text::contains_str(l, " command") || crate::text::contains_str(l, " subcommand") {
            if !crate::text::contains_str(pattern, "[command]") && !crate::text::contains_str(
                pattern,
                "[subcommand]",
            ) {
                return true;
            }
        }
        false
    }

    /// Whether a usage pattern shows only optional arguments.
    pub fn is_optional_only_from_usage(&self, pattern: &str) -> (r: bool)
        ensures
            r == spec_optional_only(pattern@),
    {
        let n = pattern.unicode_len();
        let a = skip_spaces(pattern, 0);
        if a >= n {
            return true;
        }
        let b = skip_non_spaces(pattern, a);
        let c = skip_spaces(pattern, b);
        if c >= n {
            return true;
        }
        pattern.get_char(c) == '['
    }

    /// Classifies the no-arguments behavior of an analyzed binary, from
    /// the analysis record and the probe outcome the caller observed.
    /// When the binary name is a known interactive tool the verdict is
    /// `Interactive` whatever the other inputs say.
    pub fn infer_no_args_behavior(&self, analysis: &CliAnalysis, probe: &NoArgsProbe) -> (r:
        NoArgsBehavior)
        ensures
            r == spec_infer_behavior(
                analysis.binary_name@,
                analysis.help_output@,
                analysis.subcommands@.len() > 0,
                *probe,
            ),
    {
        if self.is_interactive_tool(analysis.binary_name.as_str()) {
            return NoArgsBehavior::Interactive;
        }
        match probe {
            NoArgsProbe::Exited(code) => {
                if *code == 0 {
                    NoArgsBehavior::ShowHelp
                } else if *code == 1 || *code == 2 {
                    NoArgsBehavior::RequireSubcommand
                } else {
                    NoArgsBehavior::ShowHelp
                }
            },
            NoArgsProbe::Inconclusive => {
                match self.extract_usage_pattern(analysis.help_output.as_str()) {
                    Some(pattern) => {
                        if self.requires_subcommand_from_usage(pattern.as_str()) {
                            NoArgsBehavior::RequireSubcommand
                        } else if self.is_optional_only_from_usage(pattern.as_str()) {
                            NoArgsBehavior::ShowHelp
                        } else if self.has_subcommands(analysis) {
                            NoArgsBehavior::RequireSubcommand
                        } else {
                            NoArgsBehavior::ShowHelp
                        }
                    },
                    None => {
                        if self.has_subcommands(analysis) {
                            NoArgsBehavior::RequireSubcommand
                        } else {
                            NoArgsBehavior::ShowHelp
                        }
                    },
                }
            },
        }
    }

    /// Whether the analysis found any subcommand.
    fn has_subcommands(&self, analysis: &CliAnalysis) -> (r: bool)
        ensures
            r == (analysis.subcommands@.len() > 0),
    {
        analysis.subcommands.len() > 0
    }
}

impl Default for BehaviorInferrer {
    fn default() -> Self {
        BehaviorInferrer
    }
}

} // verus!
