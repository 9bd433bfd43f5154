//! Multi-layered validation of configured setup and teardown commands.
//!
//! Commands from a configuration file run in a shell later, so they are
//! screened first: a length cap, a list of forbidden shell constructs
//! and programs, dangerous recursive deletions of root directories, and
//! a command allowlist — in that order, first failure wins.

use vstd::prelude::*;
use crate::error::CliTestError;
use crate::text::{
    scan_non_spaces, scan_spaces, skip_non_spaces, skip_spaces, spec_contains, spec_starts_with,
    spec_trim, substring, trim_str,
};
use crate::types::config::CliTestConfig;

verus! {

/// Longest accepted command, in characters.
pub const MAX_COMMAND_LENGTH: usize = 200;

/// Shell constructs and programs a configured command may not hold, in
/// check order: chaining, substitution, privilege escalation, network
/// access, disk operations, redirection.
pub open spec fn spec_forbidden_patterns() -> Seq<Seq<char>> {
    seq![
        "|"@,
        ";"@,
        "&&"@,
        "||"@,
        "`"@,
        "$("@,
        "sudo"@,
        "su"@,
        "curl"@,
        "wget"@,
        "nc"@,
        "mkfs"@,
        "dd"@,
        ">"@,
        ">>"@,
    ]
}

/// Recursive deletions of a root directory, rejected even though `rm`
/// itself is allowed.
pub open spec fn spec_dangerous_rm() -> Seq<Seq<char>> {
    seq!["rm -rf /"@, "rm -rf /*"@, "rm -rf ~"@, "rm -rf $HOME"@]
}

/// Programs a command may start with.
pub open spec fn spec_allowed_commands() -> Seq<Seq<char>> {
    seq![
        "mkdir"@,
        "touch"@,
        "rm"@,
        "cp"@,
        "mv"@,
        "echo"@,
        "cat"@,
        "ls"@,
        "pwd"@,
        "cd"@,
        "chmod"@,
        "chown"@,
    ]
}

/// A command shortened for an error message: at most `max_len`
/// characters, with an ellipsis when something was cut.
pub open spec fn spec_truncate(s: Seq<char>, max_len: int) -> Seq<char> {
    if s.len() <= max_len {
        s
    } else {
        s.take(max_len) + "..."@
    }
}

/// Shortens a string for an error message.
pub fn truncate(s: &str, max_len: usize) -> (r: String)
    ensures
        r@ == spec_truncate(s@, max_len as int),
{
    let n = s.unicode_len();
    if n <= max_len {
        s.to_owned()
    } else {
        let mut r = substring(s, 0, max_len);
        r.append("...");
        proof {
            assert(s@.subrange(0, max_len as int) =~= s@.take(max_len as int));
        }
        r
    }
}

/// Index of the first forbidden pattern the command holds.
pub open spec fn spec_first_forbidden(cmd: Seq<char>, i: int) -> Option<int>
    decreases spec_forbidden_patterns().len() - i,
{
    if i < 0 || i >= spec_forbidden_patterns().len() {
        None
    } else if spec_contains(cmd, spec_forbidden_patterns()[i]) {
        Some(i)
    } else {
        spec_first_forbidden(cmd, i + 1)
    }
}

/// A trimmed command starts a dangerous deletion: it is the pattern
/// itself, or the pattern followed by a space, `&&` or `;`.
pub open spec fn spec_rm_hit(t: Seq<char>, pat: Seq<char>) -> bool {
    ||| t == pat
    ||| spec_starts_with(t, pat.push(' '))
    ||| spec_starts_with(t, pat + "&&"@)
    ||| spec_starts_with(t, pat + ";"@)
}

/// Index of the first dangerous deletion pattern the command starts.
pub open spec fn spec_first_dangerous(t: Seq<char>, i: int) -> Option<int>
    decreases spec_dangerous_rm().len() - i,
{
    if i < 0 || i >= spec_dangerous_rm().len() {
        None
    } else if spec_rm_hit(t, spec_dangerous_rm()[i]) {
        Some(i)
    } else {
        spec_first_dangerous(t, i + 1)
    }
}

/// The command's first word.
pub open spec fn spec_first_word(cmd: Seq<char>) -> Seq<char> {
    let a = scan_spaces(cmd, 0);
    cmd.subrange(a, scan_non_spaces(cmd, a))
}

/// The word is on the allowlist.
pub open spec fn spec_word_allowed(w: Seq<char>) -> bool {
    exists|i: int| 0 <= i < spec_allowed_commands().len() && #[trigger] spec_allowed_commands()[i] == w
}

/// The error message a command is rejected with, or `None` for an
/// accepted command. The checks run in order: length, forbidden
/// patterns, dangerous deletions, the allowlist.
pub open spec fn spec_command_verdict(cmd: Seq<char>, context: Seq<char>) -> Option<Seq<char>> {
    if cmd.len() > MAX_COMMAND_LENGTH {
        Some(context + " command too long (max 200 chars): "@ + spec_truncate(cmd, 50))
    } else if spec_first_forbidden(cmd, 0) is Some {
        Some(
            context + " command contains forbidden pattern '"@ + spec_forbidden_patterns()[
                spec_first_forbidden(cmd, 0)->0] + "': "@ + spec_truncate(cmd, 50),
        )
    } else if spec_first_dangerous(spec_trim(cmd), 0) is Some {
        Some(
            context + " command contains dangerous deletion pattern '"@ + spec_dangerous_rm()[
                spec_first_dangerous(spec_trim(cmd), 0)->0] + "': "@ + spec_truncate(cmd, 50),
        )
    } else if spec_first_word(cmd).len() > 0 && !spec_word_allowed(spec_first_word(cmd)) {
        Some(
            context + " command '"@ + spec_first_word(cmd) + "' not in allowlist. "@
                + "Use --allow-unsafe-commands to override. Allowed commands: mkdir, touch, rm, cp, mv, echo, cat, ls, pwd, cd, chmod, chown"@,
        )
    } else {
        None
    }
}

/// Joins the three message parts around the offending text.
fn verdict_msg(context: &str, middle: &str, offender: &str, tail: &str) -> (r: String)
    ensures
        r@ == context@ + middle@ + offender@ + tail@,
{
    let mut m = context.to_owned();
    m.append(middle);
    m.append(offender);
    m.append(tail);
    m
}

/// Validates one configured command; `context` names the hook it came
/// from, `setup` or `teardown`. An empty command passes.
pub fn validate_command(cmd: &str, context: &str) -> (r: Result<(), CliTestError>)
    ensures
        match spec_command_verdict(cmd@, context@) {
            Some(m) => r matches Err(e) && (e matches CliTestError::Config(s) && s@ == m),
            None => r is Ok,
        },
{
    let n = cmd.unicode_len();
    if n > MAX_COMMAND_LENGTH {
        let shown = truncate(cmd, 50);
        let m = verdict_msg(context, " command too long (max 200 chars): ", shown.as_str(), "");
        proof {
            reveal_strlit("");
            assert(m@ =~= spec_command_verdict(cmd@, context@)->0);
        }
        return Err(CliTestError::Config(m));
    }
    let mut patterns: Vec<&'static str> = Vec::new();
    patterns.push("|");
    patterns.push(";");
    patterns.push("&&");
    patterns.push("||");
    patterns.push("`");
    patterns.push("$(");
    patterns.push("sudo");
    patterns.push("su");
    patterns.push("curl");
    patterns.push("wget");
    patterns.push("nc");
    patterns.push("mkfs");
    patterns.push("dd");
    patterns.push(">");
    patterns.push(">>");
    proof {
        assert(patterns.deep_view() =~= spec_forbidden_patterns());
    }
    let np = patterns.len();
    let mut i: usize = 0;
    loop
        invariant
            i <= np,
            np == spec_forbidden_patterns().len(),
            patterns.deep_view() == spec_forbidden_patterns(),
            patterns@.len() == np,
            spec_first_forbidden(cmd@, 0) == spec_first_forbidden(cmd@, i as int),
        ensures
            spec_first_forbidden(cmd@, 0) == spec_first_forbidden(cmd@, i as int),
            i < np ==> spec_contains(cmd@, spec_forbidden_patterns()[i as int]),
            i == np ==> spec_first_forbidden(cmd@, 0) is None,
        decreases np - i,
    {
        if i == np {
            break ;
        }
        proof {
            assert(patterns.deep_view()[i as int] == patterns@[i as int]@);
        }
        if crate::text::contains_str(cmd, patterns[i]) {
            break ;
        }
        i = i + 1;
    }
    if i < np {
        let shown = truncate(cmd, 50);
        let m1 = verdict_msg(context, " command contains forbidden pattern '", patterns[i], "': ");
        let mut m = m1;
        m.append(shown.as_str());
        proof {
            assert(patterns.deep_view()[i as int] == patterns@[i as int]@);
            assert(m@ =~= spec_command_verdict(cmd@, context@)->0);
        }
        return Err(CliTestError::Config(m));
    }
    let trimmed = trim_str(cmd);
    let mut rm_patterns: Vec<&'static str> = Vec::new();
    rm_patterns.push("rm -rf /");
    rm_patterns.push("rm -rf /*");
    rm_patterns.push("rm -rf ~");
    rm_patterns.push("rm -rf $HOME");
    proof {
        assert(rm_patterns.deep_view() =~= spec_dangerous_rm());
    }
    let nd = rm_patterns.len();
    let mut j: usize = 0;
    loop
        invariant
            j <= nd,
            nd == spec_dangerous_rm().len(),
            rm_patterns.deep_view() == spec_dangerous_rm(),
            rm_patterns@.len() == nd,
            trimmed@ == spec_trim(cmd@),
            spec_first_dangerous(spec_trim(cmd@), 0) == spec_first_dangerous(
                spec_trim(cmd@),
                j as int,
            ),
        ensures
            spec_first_dangerous(spec_trim(cmd@), 0) == spec_first_dangerous(
                spec_trim(cmd@),
                j as int,
            ),
            j < nd ==> spec_rm_hit(spec_trim(cmd@), spec_dangerous_rm()[j as int]),
            j == nd ==> spec_first_dangerous(spec_trim(cmd@), 0) is None,
        decreases nd - j,
    {
        if j == nd {
            break ;
        }
        proof {
            assert(rm_patterns.deep_view()[j as int] == rm_patterns@[j as int]@);
        }
        if rm_hit_exec(trimmed.as_str(), rm_patterns[j]) {
            break ;
        }
        j = j + 1;
    }
    if j < nd {
        let shown = truncate(cmd, 50);
        let m1 = verdict_msg(
            context,
            " command contains dangerous deletion pattern '",
            rm_patterns[j],
            "': ",
        );
        let mut m = m1;
        m.append(shown.as_str());
        proof {
            assert(rm_patterns.deep_view()[j as int] == rm_patterns@[j as int]@);
            assert(m@ =~= spec_command_verdict(cmd@, context@)->0);
        }
        return Err(CliTestError::Config(m));
    }
    let a = skip_spaces(cmd, 0);
    let b = skip_non_spaces(cmd, a);
    let first_word = substring(cmd, a, b);
    let fw = first_word.as_str();
    if fw.unicode_len() == 0 {
        return Ok(());
    }
    let mut allowed: Vec<&'static str> = Vec::new();
    allowed.push("mkdir");
    allowed.push("touch");
    allowed.push("rm");
    allowed.push("cp");
    allowed.push("mv");
    allowed.push("echo");
    allowed.push("cat");
    allowed.push("ls");
    allowed.push("pwd");
    allowed.push("cd");
    allowed.push("chmod");
    allowed.push("chown");
    proof {
        assert(allowed.deep_view() =~= spec_allowed_commands());
    }
    let na = allowed.len();
    let mut k: usize = 0;
    loop
        invariant
            k <= na,
            na == spec_allowed_commands().len(),
            allowed.deep_view() == spec_allowed_commands(),
            allowed@.len() == na,
            fw@ == spec_first_word(cmd@),
            forall|q: int| 0 <= q < k ==> #[trigger] spec_allowed_commands()[q] != fw@,
        ensures
            (k < na && spec_allowed_commands()[k as int] == fw@) || (k == na && forall|q: int|
                0 <= q < k ==> #[trigger] spec_allowed_commands()[q] != fw@),
        decreases na - k,
    {
        if k == na {
            break ;
        }
        proof {
            assert(allowed.deep_view()[k as int] == allowed@[k as int]@);
        }
        if crate::text::str_eq(fw, allowed[k]) {
            break ;
        }
        k = k + 1;
    }
    if k < na {
        proof {
            assert(spec_word_allowed(spec_first_word(cmd@)));
        }
        Ok(())
    } else {
        let m1 = verdict_msg(context, " command '", fw, "' not in allowlist. ");
        let mut m = m1;
        m.append(
            "Use --allow-unsafe-commands to override. Allowed commands: mkdir, touch, rm, cp, mv, echo, cat, ls, pwd, cd, chmod, chown",
        );
        proof {
            assert(!spec_word_allowed(spec_first_word(cmd@)));
            assert(m@ =~= spec_command_verdict(cmd@, context@)->0);
        }
        Err(CliTestError::Config(m))
    }
}

/// Whether the trimmed command starts the given deletion pattern.
fn rm_hit_exec(t: &str, pat: &str) -> (r: bool)
    ensures
        r == spec_rm_hit(t@, pat@),
{
    if crate::text::str_eq(t, pat) {
        return true;
    }
    let mut with_space = pat.to_owned();
    with_space.push(' ');
    if crate::text::starts_with_str(t, with_space.as_str()) {
        return true;
    }
    let mut with_and = pat.to_owned();
    with_and.append("&&");
    if crate::text::starts_with_str(t, with_and.as_str()) {
        return true;
    }
    let mut with_semi = pat.to_owned();
    with_semi.append(";");
    starts_with_str_owned(t, with_semi)
}

/// Prefix test against an owned pattern.
fn starts_with_str_owned(t: &str, pat: String) -> (r: bool)
    ensures
        r == spec_starts_with(t@, pat@),
{
    crate::text::starts_with_str(t, pat.as_str())
}

/// The message of the first rejected command among `commands[i..]`.
pub open spec fn spec_commands_verdict(
    commands: Seq<Seq<char>>,
    i: int,
    context: Seq<char>,
) -> Option<Seq<char>>
    decreases commands.len() - i,
{
    if i < 0 || i >= commands.len() {
        None
    } else if spec_command_verdict(commands[i], context) is Some {
        spec_command_verdict(commands[i], context)
    } else {
        spec_commands_verdict(commands, i + 1, context)
    }
}

/// Validates every setup command; the first rejection wins.
pub fn validate_setup_commands(commands: &Vec<String>) -> (r: Result<(), CliTestError>)
    ensures
        match spec_commands_verdict(commands.deep_view(), 0, "setup"@) {
            Some(m) => r matches Err(e) && (e matches CliTestError::Config(s) && s@ == m),
            None => r is Ok,
        },
{
    validate_commands_with(commands, "setup")
}

/// Validates every teardown command; the first rejection wins.
pub fn validate_teardown_commands(commands: &Vec<String>) -> (r: Result<(), CliTestError>)
    ensures
        match spec_commands_verdict(commands.deep_view(), 0, "teardown"@) {
            Some(m) => r matches Err(e) && (e matches CliTestError::Config(s) && s@ == m),
            None => r is Ok,
        },
{
    validate_commands_with(commands, "teardown")
}

fn validate_commands_with(commands: &Vec<String>, context: &str) -> (r: Result<(), CliTestError>)
    ensures
        match spec_commands_verdict(commands.deep_view(), 0, context@) {
            Some(m) => r matches Err(e) && (e matches CliTestError::Config(s) && s@ == m),
            None => r is Ok,
        },
{
    let n = commands.len();
    let mut i: usize = 0;
    while i < n
        invariant
            i <= n,
            n == commands@.len(),
            spec_commands_verdict(commands.deep_view(), 0, context@) == spec_commands_verdict(
                commands.deep_view(),
                i as int,
                context@,
            ),
        decreases n - i,
    {
        proof {
            assert(commands.deep_view()[i as int] == commands@[i as int]@);
        }
        match validate_command(commands[i].as_str(), context) {
            Ok(()) => {},
            Err(e) => {
                return Err(e);
            },
        }
        i = i + 1;
    }
    Ok(())
}

/// Validates a whole configuration: the schema version must be `1.0`,
/// and every configured setup and teardown command must pass the
/// command checks.
pub fn validate_config(config: &CliTestConfig) -> (r: Result<(), CliTestError>)
    ensures
        config.version@ != "1.0"@ ==> r is Err,
        config.version@ == "1.0"@ && config.test_adjustments.directory_traversal is None ==> r
            is Ok,
        config.version@ == "1.0"@ ==> (config.test_adjustments.directory_traversal matches Some(
            dt,
        ) ==> (r is Ok <==> (spec_commands_verdict(dt.setup_commands.deep_view(), 0, "setup"@)
            is None && spec_commands_verdict(dt.teardown_commands.deep_view(), 0, "teardown"@)
            is None))),
{
    match validate_version(config.version.as_str()) {
        Ok(()) => {},
        Err(e) => {
            return Err(e);
        },
    }
    match &config.test_adjustments.directory_traversal {
        Some(dir_traversal) => {
            match validate_setup_commands(&dir_traversal.setup_commands) {
                Ok(()) => {},
                Err(e) => {
                    return Err(e);
                },
            }
            match validate_teardown_commands(&dir_traversal.teardown_commands) {
                Ok(()) => {},
                Err(e) => {
                    return Err(e);
                },
            }
            Ok(())
        },
        None => Ok(()),
    }
}

/// Accepts schema version `1.0` and nothing else.
pub fn validate_version(version: &str) -> (r: Result<(), CliTestError>)
    ensures
        version@ == "1.0"@ <==> r is Ok,
        r matches Err(e) ==> (e matches CliTestError::Config(s) && s@ == "Unsupported config version '"@
            + version@ + "'. Supported versions: 1.0"@),
{
    if crate::text::str_eq(version, "1.0") {
        Ok(())
    } else {
        let m = verdict_msg(
            "Unsupported config version '",
            version,
            "'. Supported versions: 1.0",
            "",
        );
        proof {
            reveal_strlit("");
            assert(m@ =~= "Unsupported config version '"@ + version@
                + "'. Supported versions: 1.0"@);
        }
        Err(CliTestError::Config(m))
    }
}

} // verus!
