//! Schema of the per-tool test configuration file, with version migration.
//!
//! Reading and writing the file itself is I/O and lives outside the
//! library; here are the parsed form and the migration rules.

use vstd::prelude::*;
use std::collections::HashMap;
use crate::error::CliTestError;
use crate::text::{scan_until, skip_until, substring};

verus! {

/// Option excluded from security testing, with the documented reason.
#[derive(Debug, Clone, PartialEq)]
pub struct SkipOption {
    /// Option name, such as `lang`.
    pub name: String,
    /// Why it is skipped.
    pub reason: String,
    /// Optional category label.
    pub category: Option<String>,
}

/// A hand-written security test to add.
#[derive(Debug, Clone, PartialEq)]
pub struct CustomSecurityTest {
    /// Test name.
    pub name: String,
    /// Command to execute.
    pub command: String,
    /// Expected exit code.
    pub expected_exit_code: i32,
    /// What the test checks.
    pub description: String,
}

/// Adjustments to the security test category.
#[derive(Debug, Clone, PartialEq)]
pub struct SecurityAdjustments {
    /// Options to skip.
    pub skip_options: Vec<SkipOption>,
    /// Extra tests to add.
    pub custom_tests: Vec<CustomSecurityTest>,
}

/// A test directory created declaratively, without shell commands.
#[derive(Debug, Clone, PartialEq)]
pub struct TestDirectory {
    /// Directory path.
    pub path: String,
    /// Create the directory when it is missing.
    pub create: bool,
    /// Number of files to create, when set.
    pub file_count: Option<usize>,
    /// Directory depth to create, when set.
    pub depth: Option<usize>,
    /// Remove everything afterwards.
    pub cleanup: bool,
}

/// Adjustments to the directory traversal tests.
#[derive(Debug, Clone, PartialEq)]
pub struct DirectoryTraversalAdjustments {
    /// Declarative directory definitions.
    pub test_directories: Vec<TestDirectory>,
    /// Shell commands run before the tests; each must pass validation.
    pub setup_commands: Vec<String>,
    /// Shell commands run afterwards.
    pub teardown_commands: Vec<String>,
    /// Skip the whole category.
    pub skip: bool,
    /// Skip single tests by name.
    pub skip_tests: Vec<String>,
}

/// A command needing special handling in destructive tests.
#[derive(Debug, Clone, PartialEq)]
pub struct SpecialCommand {
    /// Command name.
    pub command: String,
    /// Whether it needs a terminal.
    pub requires_tty: bool,
    /// Flag that confirms without prompting, such as `--yes`.
    pub confirm_flag: Option<String>,
}

/// Adjustments to the destructive operation tests.
#[derive(Debug, Clone, PartialEq)]
pub struct DestructiveOpsAdjustments {
    /// Environment variables to set.
    pub env_vars: HashMap<String, String>,
    /// Exit code expected when the operation is cancelled.
    pub cancel_exit_code: i32,
    /// Commands needing special handling.
    pub special_commands: Vec<SpecialCommand>,
}

/// Adjustments to the path handling tests.
#[derive(Debug, Clone, PartialEq)]
pub struct PathAdjustments {
    /// Skip Unicode path tests.
    pub skip_unicode: bool,
    /// A custom path separator.
    pub path_separator: Option<String>,
}

/// Adjustments to the multi-shell tests.
#[derive(Debug, Clone, PartialEq)]
pub struct MultiShellAdjustments {
    /// Shells to test under.
    pub shells: Vec<String>,
    /// Extra environment for bash.
    pub bash_env: HashMap<String, String>,
    /// Extra environment for zsh.
    pub zsh_env: HashMap<String, String>,
}

/// Adjustments to the performance tests.
#[derive(Debug, Clone, PartialEq)]
pub struct PerformanceAdjustments {
    /// Largest acceptable startup time, in milliseconds.
    pub max_startup_time: Option<u64>,
    /// Largest acceptable memory use, in megabytes.
    pub max_memory_mb: Option<u64>,
    /// Skip these tests on CI machines.
    pub skip_in_ci: bool,
}

/// Per-category adjustments.
#[derive(Debug, Clone, PartialEq)]
pub struct TestAdjustments {
    /// Security tests.
    pub security: Option<SecurityAdjustments>,
    /// Directory traversal tests.
    pub directory_traversal: Option<DirectoryTraversalAdjustments>,
    /// Destructive operation tests.
    pub destructive_ops: Option<DestructiveOpsAdjustments>,
    /// Path handling tests.
    pub path: Option<PathAdjustments>,
    /// Multi-shell tests.
    pub multi_shell: Option<MultiShellAdjustments>,
    /// Performance tests.
    pub performance: Option<PerformanceAdjustments>,
}

/// Settings applied to every test.
#[derive(Debug, Clone, PartialEq)]
pub struct GlobalSettings {
    /// Timeout per test, in seconds.
    pub timeout: u64,
    /// How often a failed test is retried.
    pub retry_count: u32,
    /// Verbose output.
    pub verbose: bool,
    /// Environment variables for every test.
    pub env_vars: HashMap<String, String>,
}

/// Settings that apply on CI machines.
#[derive(Debug, Clone, PartialEq)]
pub struct CiSettings {
    /// Detect a CI environment automatically.
    pub auto_detect: bool,
    /// Skip tests that need a terminal.
    pub skip_tty_tests: bool,
    /// Skip resource-intensive tests.
    pub skip_intensive_tests: bool,
}

/// Root of the per-tool test configuration.
#[derive(Debug, Clone, PartialEq)]
pub struct CliTestConfig {
    /// Schema version of the file.
    pub version: String,
    /// Name of the tool the file belongs to.
    pub tool_name: String,
    /// Version of that tool, when given.
    pub tool_version: Option<String>,
    /// Per-category adjustments.
    pub test_adjustments: TestAdjustments,
    /// Settings for every test.
    pub global: GlobalSettings,
    /// CI-specific settings.
    pub ci: CiSettings,
}

impl Default for TestAdjustments {
    /// No category is adjusted.
    fn default() -> (r: Self)
        ensures
            r.security is None,
            r.directory_traversal is None,
            r.destructive_ops is None,
            r.path is None,
            r.multi_shell is None,
            r.performance is None,
    {
        TestAdjustments {
            security: None,
            directory_traversal: None,
            destructive_ops: None,
            path: None,
            multi_shell: None,
            performance: None,
        }
    }
}

impl Default for PathAdjustments {
    fn default() -> (r: Self)
        ensures
            !r.skip_unicode,
            r.path_separator is None,
    {
        PathAdjustments { skip_unicode: false, path_separator: None }
    }
}

impl Default for MultiShellAdjustments {
    /// Tests run under bash and zsh.
    fn default() -> (r: Self)
        ensures
            r.shells@.len() == 2,
            r.shells@[0]@ == "bash"@,
            r.shells@[1]@ == "zsh"@,
    {
        let mut shells: Vec<String> = Vec::new();
        shells.push("bash".to_owned());
        shells.push("zsh".to_owned());
        MultiShellAdjustments { shells, bash_env: HashMap::new(), zsh_env: HashMap::new() }
    }
}

impl Default for PerformanceAdjustments {
    fn default() -> (r: Self)
        ensures
            r.max_startup_time is None,
            r.max_memory_mb is None,
            !r.skip_in_ci,
    {
        PerformanceAdjustments { max_startup_time: None, max_memory_mb: None, skip_in_ci: false }
    }
}

impl Default for GlobalSettings {
    /// A 30-second timeout, no retries, quiet, no extra environment.
    fn default() -> (r: Self)
        ensures
            r.timeout == 30u64,
            r.retry_count == 0u32,
            !r.verbose,
    {
        GlobalSettings { timeout: 30, retry_count: 0, verbose: false, env_vars: HashMap::new() }
    }
}

impl Default for CiSettings {
    fn default() -> (r: Self)
        ensures
            r.auto_detect,
            r.skip_tty_tests,
            !r.skip_intensive_tests,
    {
        CiSettings { auto_detect: true, skip_tty_tests: true, skip_intensive_tests: false }
    }
}

// ---------------------------------------------------------------------------
// Version parsing
// ---------------------------------------------------------------------------

/// Every character of the piece is a decimal digit, and there is at least one.
pub open spec fn spec_all_digits(s: Seq<char>) -> bool {
    s.len() > 0 && forall|k: int| 0 <= k < s.len() ==> crate::text::is_digit_char(#[trigger] s[k])
}

/// Numeric value of a digit string, read left to right.
pub open spec fn spec_digits_value(s: Seq<char>, i: int, acc: int) -> int
    decreases s.len() - i,
{
    if i < 0 || i >= s.len() {
        acc
    } else {
        spec_digits_value(s, i + 1, acc * 10 + (s[i] as int - '0' as int))
    }
}

/// The pieces of a version string, split on dots; an empty piece stays.
pub open spec fn spec_dot_pieces(s: Seq<char>, i: int) -> Seq<Seq<char>>
    decreases s.len() - i,
    via spec_dot_pieces_dec
{
    if i < 0 || i > s.len() {
        Seq::empty()
    } else {
        let j = scan_until(s, i, '.');
        if j >= s.len() {
            seq![s.subrange(i, s.len() as int)]
        } else {
            seq![s.subrange(i, j)] + spec_dot_pieces(s, j + 1)
        }
    }
}

#[via_fn]
proof fn spec_dot_pieces_dec(s: Seq<char>, i: int) {
    if 0 <= i && i <= s.len() {
        crate::text::lemma_scan_until(s, i, '.');
    }
}

/// Splits a string on dots, keeping empty pieces.
fn dot_pieces(s: &str, i: usize) -> (r: Vec<String>)
    requires
        i <= s@.len(),
    ensures
        r@.map_values(|p: String| p@) == spec_dot_pieces(s@, i as int),
    decreases s@.len() - i,
{
    let n = s.unicode_len();
    let j = skip_until(s, i, '.');
    if j >= n {
        let mut r: Vec<String> = Vec::new();
        r.push(substring(s, i, n));
        proof {
            assert(r@.map_values(|p: String| p@) =~= spec_dot_pieces(s@, i as int));
        }
        r
    } else {
        let piece = substring(s, i, j);
        let mut rest = dot_pieces(s, j + 1);
        rest.insert(0, piece);
        proof {
            assert(rest@.map_values(|p: String| p@) =~= spec_dot_pieces(s@, i as int));
        }
        rest
    }
}

/// Reads a whole digit string as a `u64`; `None` when a character is not a
/// digit, when the piece is empty, or when the value does not fit.
fn parse_u64_digits(s: &str) -> (r: Option<u64>)
    ensures
        r is Some ==> spec_all_digits(s@) && r->0 as int == spec_digits_value(s@, 0, 0),
        !spec_all_digits(s@) ==> r is None,
        spec_all_digits(s@) && spec_digits_value(s@, 0, 0) <= u64::MAX ==> r is Some,
{
    let n = s.unicode_len();
    if n == 0 {
        return None;
    }
    let mut acc: u64 = 0;
    let mut i: usize = 0;
    loop
        invariant
            i <= n,
            n == s@.len(),
            n > 0,
            forall|k: int| 0 <= k < i ==> crate::text::is_digit_char(#[trigger] s@[k]),
            spec_digits_value(s@, 0, 0) == spec_digits_value(s@, i as int, acc as int),
        ensures
            (i == n && acc as int == spec_digits_value(s@, 0, 0) && forall|k: int|
                0 <= k < n ==> crate::text::is_digit_char(#[trigger] s@[k])) || (i < n
                && !crate::text::is_digit_char(s@[i as int])),
        decreases n - i,
    {
        if i == n {
            break ;
        }
        let c = s.get_char(i);
        if !crate::text::digit_char(c) {
            break ;
        }
        let d: u64 = (c as u32 as u64) - ('0' as u32 as u64);
        let wide: u128 = acc as u128 * 10 + d as u128;
        if wide > u64::MAX as u128 {
            proof {
                if spec_all_digits(s@) {
                    lemma_digits_value_grows(s@, i + 1, acc as int * 10 + d as int);
                }
            }
            return None;
        }
        acc = wide as u64;
        i = i + 1;
    }
    if i == n {
        Some(acc)
    } else {
        None
    }
}

/// A partial value only grows as more digits are read.
proof fn lemma_digits_value_grows(s: Seq<char>, i: int, acc: int)
    requires
        acc >= 0,
        forall|k: int| i <= k < s.len() ==> crate::text::is_digit_char(#[trigger] s[k]),
    ensures
        spec_digits_value(s, i, acc) >= acc,
    decreases s.len() - i,
{
    if 0 <= i && i < s.len() {
        lemma_digits_value_grows(s, i + 1, acc * 10 + (s[i] as int - '0' as int));
    }
}

/// One dot-separated piece is a digit string whose value fits a `u64`.
pub open spec fn spec_piece_ok(p: Seq<char>) -> bool {
    spec_all_digits(p) && spec_digits_value(p, 0, 0) <= u64::MAX
}

/// The version string has at least `MAJOR.MINOR`, every named level is
/// numeric, and each fits a `u64`; pieces past the third are ignored.
pub open spec fn spec_version_ok(v: Seq<char>) -> bool {
    let pieces = spec_dot_pieces(v, 0);
    &&& pieces.len() >= 2
    &&& spec_piece_ok(pieces[0])
    &&& spec_piece_ok(pieces[1])
    &&& (pieces.len() >= 3 ==> spec_piece_ok(pieces[2]))
}

/// The `(major, minor, patch)` triple of an accepted version string; a
/// missing patch level counts as 0.
pub open spec fn spec_version_value(v: Seq<char>) -> (u64, u64, u64) {
    let pieces = spec_dot_pieces(v, 0);
    (
        spec_digits_value(pieces[0], 0, 0) as u64,
        spec_digits_value(pieces[1], 0, 0) as u64,
        if pieces.len() >= 3 {
            spec_digits_value(pieces[2], 0, 0) as u64
        } else {
            0u64
        },
    )
}

/// The message a rejected version string is reported with.
pub open spec fn spec_version_err_msg(v: Seq<char>) -> Seq<char> {
    let pieces = spec_dot_pieces(v, 0);
    if pieces.len() < 2 {
        "Invalid version format: "@ + v
    } else if !spec_piece_ok(pieces[0]) {
        "Invalid major version: "@ + pieces[0]
    } else if !spec_piece_ok(pieces[1]) {
        "Invalid minor version: "@ + pieces[1]
    } else {
        "Invalid patch version: "@ + pieces[2]
    }
}

/// Builds a configuration error whose message names the offending piece.
fn config_err(prefix: &str, piece: &str) -> (r: CliTestError)
    ensures
        (r matches CliTestError::Config(m) && m@ == prefix@ + piece@),
{
    let mut m = prefix.to_owned();
    m.append(piece);
    CliTestError::Config(m)
}

/// Reads a `MAJOR.MINOR[.PATCH]` version string; a missing patch level
/// counts as 0.
pub fn parse_version(version: &str) -> (r: Result<(u64, u64, u64), CliTestError>)
    ensures
        spec_version_ok(version@) ==> r == Ok::<(u64, u64, u64), CliTestError>(
            spec_version_value(version@),
        ),
        !spec_version_ok(version@) ==> r is Err && (r->Err_0 matches CliTestError::Config(m)
            && m@ == spec_version_err_msg(version@)),
{
    let pieces = dot_pieces(version, 0);
    if pieces.len() < 2 {
        return Err(config_err("Invalid version format: ", version));
    }
    let major = match parse_u64_digits(pieces[0].as_str()) {
        Some(v) => v,
        None => {
            return Err(config_err("Invalid major version: ", pieces[0].as_str()));
        },
    };
    let minor = match parse_u64_digits(pieces[1].as_str()) {
        Some(v) => v,
        None => {
            return Err(config_err("Invalid minor version: ", pieces[1].as_str()));
        },
    };
    let patch = if pieces.len() >= 3 {
        match parse_u64_digits(pieces[2].as_str()) {
            Some(v) => v,
            None => {
                return Err(config_err("Invalid patch version: ", pieces[2].as_str()));
            },
        }
    } else {
        0
    };
    Ok((major, minor, patch))
}

// ---------------------------------------------------------------------------
// Migration
// ---------------------------------------------------------------------------

impl CliTestConfig {
    /// The schema version this library writes.
    pub fn current_version() -> (r: &'static str)
        ensures
            r@ == "0.1.0"@,
    {
        "0.1.0"
    }
}

/// Migration for a major version change; no structural change is needed
/// from the supported major lines.
pub fn migrate_major_version(config: CliTestConfig, from_major: u64) -> (r: Result<
    CliTestConfig,
    CliTestError,
>)
    ensures
        from_major == 0 || from_major == 1 ==> r == Ok::<CliTestConfig, CliTestError>(config),
        !(from_major == 0 || from_major == 1) ==> r is Err,
{
    if from_major == 0 || from_major == 1 {
        Ok(config)
    } else {
        Err(
            CliTestError::Config(
                "Unsupported config version: this library supports the 0.x and 1.x lines only".to_owned(),
            ),
        )
    }
}

/// Migration for a minor version change: optional adjustment tables are
/// filled with defaults, and an empty global environment receives the
/// standard testing variables.
pub fn migrate_minor_version(config: CliTestConfig) -> (r: Result<CliTestConfig, CliTestError>)
    ensures
        r is Ok,
        r->Ok_0.test_adjustments.path is Some,
        r->Ok_0.test_adjustments.multi_shell is Some,
        r->Ok_0.test_adjustments.performance is Some,
        config.test_adjustments.path is Some ==> r->Ok_0.test_adjustments.path
            == config.test_adjustments.path,
        config.test_adjustments.multi_shell is Some ==> r->Ok_0.test_adjustments.multi_shell
            == config.test_adjustments.multi_shell,
        config.test_adjustments.performance is Some ==> r->Ok_0.test_adjustments.performance
            == config.test_adjustments.performance,
        r->Ok_0.test_adjustments.security == config.test_adjustments.security,
        r->Ok_0.test_adjustments.directory_traversal
            == config.test_adjustments.directory_traversal,
        r->Ok_0.test_adjustments.destructive_ops == config.test_adjustments.destructive_ops,
        r->Ok_0.version == config.version,
        r->Ok_0.tool_name == config.tool_name,
        r->Ok_0.tool_version == config.tool_version,
        r->Ok_0.global.timeout == config.global.timeout,
        r->Ok_0.global.retry_count == config.global.retry_count,
        r->Ok_0.global.verbose == config.global.verbose,
        r->Ok_0.ci == config.ci,
{
    let mut config = config;
    if config.test_adjustments.path.is_none() {
        config.test_adjustments.path = Some(PathAdjustments::default());
    }
    if config.test_adjustments.multi_shell.is_none() {
        config.test_adjustments.multi_shell = Some(MultiShellAdjustments::default());
    }
    if config.test_adjustments.performance.is_none() {
        config.test_adjustments.performance = Some(PerformanceAdjustments::default());
    }
    if config.global.env_vars.is_empty() {
        config.global.env_vars.insert("LANG".to_owned(), "en_US.UTF-8".to_owned());
        config.global.env_vars.insert("TZ".to_owned(), "UTC".to_owned());
    }
    Ok(config)
}

/// Brings a configuration to the current schema version. A file already at
/// the current version is returned unchanged; otherwise the minor
/// migration fills missing tables and the version field is rewritten.
pub fn migrate_config(config: CliTestConfig) -> (r: Result<CliTestConfig, CliTestError>)
    ensures
        !spec_version_ok(config.version@) ==> r is Err,
        spec_version_ok(config.version@) && spec_version_value(config.version@) == (
            0u64,
            1u64,
            0u64,
        ) ==> r == Ok::<CliTestConfig, CliTestError>(config),
        spec_version_ok(config.version@) && spec_version_value(config.version@) != (
            0u64,
            1u64,
            0u64,
        ) ==> r is Ok && {
            &&& r->Ok_0.version@ == "0.1.0"@
            &&& r->Ok_0.test_adjustments.path is Some
            &&& r->Ok_0.test_adjustments.multi_shell is Some
            &&& r->Ok_0.test_adjustments.performance is Some
            &&& r->Ok_0.tool_name == config.tool_name
            &&& r->Ok_0.tool_version == config.tool_version
            &&& r->Ok_0.global.timeout == config.global.timeout
            &&& r->Ok_0.global.retry_count == config.global.retry_count
            &&& r->Ok_0.global.verbose == config.global.verbose
            &&& r->Ok_0.test_adjustments.security == config.test_adjustments.security
            &&& r->Ok_0.test_adjustments.directory_traversal
                == config.test_adjustments.directory_traversal
            &&& r->Ok_0.test_adjustments.destructive_ops
                == config.test_adjustments.destructive_ops
        },
{
    let config_version = match parse_version(config.version.as_str()) {
        Ok(v) => v,
        Err(e) => {
            return Err(e);
        },
    };
    let target: (u64, u64, u64) = (0, 1, 0);
    if config_version.0 == target.0 && config_version.1 == target.1 && config_version.2 == target.2
        {
        return Ok(config);
    }
    let mut config = config;
    if config_version.0 < target.0 {
        config = match migrate_major_version(config, config_version.0) {
            Ok(c) => c,
            Err(e) => {
                return Err(e);
            },
        };
    }
    config = match migrate_minor_version(config) {
        Ok(c) => c,
        Err(e) => {
            return Err(e);
        },
    };
    config.version = CliTestConfig::current_version().to_owned();
    Ok(config)
}

} // verus!
