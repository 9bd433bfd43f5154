//! Test case definitions handed to the test generators.

use vstd::prelude::*;

verus! {

/// Classification of a generated test.
#[derive(Debug, Clone, Copy, PartialEq, Eq, Hash, Structural)]
pub enum TestCategory {
    /// Basic validation tests (help, version, exit codes).
    Basic,
    /// Help display tests.
    Help,
    /// Security vulnerability tests.
    Security,
    /// Path handling tests.
    Path,
    /// Multi-shell compatibility tests.
    MultiShell,
    /// Input validation tests.
    InputValidation,
    /// Destructive operation tests.
    DestructiveOps,
    /// Directory traversal prevention tests.
    DirectoryTraversal,
    /// Performance tests.
    Performance,
}

/// An assertion a generated test makes about the command's behavior.
#[derive(Debug, Clone)]
pub enum Assertion {
    /// The exact exit code.
    ExitCode(i32),
    /// The output contains a string.
    OutputContains(String),
    /// The output matches a pattern.
    OutputMatches(String),
    /// The output does not contain a string.
    OutputNotContains(String),
    /// A file exists at a path.
    FileExists(String),
    /// No file exists at a path.
    FileNotExists(String),
}

/// One generated test: a command to run and what to check about it.
#[derive(Debug, Clone)]
pub struct TestCase {
    /// Unique identifier, such as `basic-001`.
    pub id: String,
    /// Human-readable name.
    pub name: String,
    /// Category the test belongs to.
    pub category: TestCategory,
    /// The command line to execute.
    pub command: String,
    /// Expected exit code.
    pub expected_exit: i32,
    /// Assertions checked after the command ran.
    pub assertions: Vec<Assertion>,
    /// Free-form tags.
    pub tags: Vec<String>,
}

impl TestCase {
    /// A test with the given identity and command, expecting exit code 0
    /// and making no assertions yet.
    pub fn new(id: String, name: String, category: TestCategory, command: String) -> (r: Self)
        ensures
            r.id == id,
            r.name == name,
            r.category == category,
            r.command == command,
            r.expected_exit == 0i32,
            r.assertions@.len() == 0,
            r.tags@.len() == 0,
    {
        TestCase {
            id,
            name,
            category,
            command,
            expected_exit: 0,
            assertions: Vec::new(),
            tags: Vec::new(),
        }
    }

    /// The same test with one more assertion at the end.
    pub fn with_assertion(self, assertion: Assertion) -> (r: Self)
        ensures
            r.assertions@ == self.assertions@.push(assertion),
            r.id == self.id,
            r.name == self.name,
            r.category == self.category,
            r.command == self.command,
            r.expected_exit == self.expected_exit,
            r.tags == self.tags,
    {
        let mut r = self;
        r.assertions.push(assertion);
        r
    }

    /// The same test with one more tag at the end.
    pub fn with_tag(self, tag: String) -> (r: Self)
        ensures
            r.tags@ == self.tags@.push(tag),
            r.id == self.id,
            r.name == self.name,
            r.category == self.category,
            r.command == self.command,
            r.expected_exit == self.expected_exit,
            r.assertions == self.assertions,
    {
        let mut r = self;
        r.tags.push(tag);
        r
    }

    /// The same test with a different expected exit code.
    pub fn with_exit_code(self, code: i32) -> (r: Self)
        ensures
            r.expected_exit == code,
            r.id == self.id,
            r.name == self.name,
            r.category == self.category,
            r.command == self.command,
            r.assertions == self.assertions,
            r.tags == self.tags,
    {
        let mut r = self;
        r.expected_exit = code;
        r
    }
}

impl TestCategory {
    /// Every category, in presentation order.
    pub open spec fn all_spec() -> Seq<TestCategory> {
        seq![
            TestCategory::Basic,
            TestCategory::Help,
            TestCategory::Security,
            TestCategory::Path,
            TestCategory::MultiShell,
            TestCategory::InputValidation,
            TestCategory::DestructiveOps,
            TestCategory::DirectoryTraversal,
            TestCategory::Performance,
        ]
    }

    /// The default selection: everything but the resource-intensive
    /// categories.
    pub open spec fn default_spec() -> Seq<TestCategory> {
        seq![
            TestCategory::Basic,
            TestCategory::Help,
            TestCategory::Security,
            TestCategory::Path,
            TestCategory::MultiShell,
            TestCategory::InputValidation,
            TestCategory::DestructiveOps,
            TestCategory::Performance,
        ]
    }

    /// Category name as a kebab-case string.
    pub fn as_str(&self) -> (r: &'static str)
        ensures
            *self == TestCategory::Basic ==> r@ == "basic"@,
            *self == TestCategory::Help ==> r@ == "help"@,
            *self == TestCategory::Security ==> r@ == "security"@,
            *self == TestCategory::Path ==> r@ == "path"@,
            *self == TestCategory::MultiShell ==> r@ == "multi-shell"@,
            *self == TestCategory::InputValidation ==> r@ == "input-validation"@,
            *self == TestCategory::DestructiveOps ==> r@ == "destructive-ops"@,
            *self == TestCategory::DirectoryTraversal ==> r@ == "directory-traversal"@,
            *self == TestCategory::Performance ==> r@ == "performance"@,
    {
        match self {
            TestCategory::Basic => "basic",
            TestCategory::Help => "help",
            TestCategory::Security => "security",
            TestCategory::Path => "path",
            TestCategory::MultiShell => "multi-shell",
            TestCategory::InputValidation => "input-validation",
            TestCategory::DestructiveOps => "destructive-ops",
            TestCategory::DirectoryTraversal => "directory-traversal",
            TestCategory::Performance => "performance",
        }
    }

    /// Every category, in presentation order.
    pub fn all() -> (r: Vec<TestCategory>)
        ensures
            r@ == TestCategory::all_spec(),
    {
        let mut r: Vec<TestCategory> = Vec::new();
        r.push(TestCategory::Basic);
        r.push(TestCategory::Help);
        r.push(TestCategory::Security);
        r.push(TestCategory::Path);
        r.push(TestCategory::MultiShell);
        r.push(TestCategory::InputValidation);
        r.push(TestCategory::DestructiveOps);
        r.push(TestCategory::DirectoryTraversal);
        r.push(TestCategory::Performance);
        proof {
            assert(r@ =~= TestCategory::all_spec());
        }
        r
    }

    /// The categories run by default: everything but the resource-intensive
    /// directory traversal tests.
    pub fn default() -> (r: Vec<TestCategory>)
        ensures
            r@ == TestCategory::default_spec(),
    {
        let mut r: Vec<TestCategory> = Vec::new();
        r.push(TestCategory::Basic);
        r.push(TestCategory::Help);
        r.push(TestCategory::Security);
        r.push(TestCategory::Path);
        r.push(TestCategory::MultiShell);
        r.push(TestCategory::InputValidation);
        r.push(TestCategory::DestructiveOps);
        r.push(TestCategory::Performance);
        proof {
            assert(r@ =~= TestCategory::default_spec());
        }
        r
    }

    /// Categories that need substantial disk space, memory and time.
    pub fn intensive() -> (r: Vec<TestCategory>)
        ensures
            r@ == seq![TestCategory::DirectoryTraversal],
    {
        let mut r: Vec<TestCategory> = Vec::new();
        r.push(TestCategory::DirectoryTraversal);
        proof {
            assert(r@ =~= seq![TestCategory::DirectoryTraversal]);
        }
        r
    }
}

/// Failure to read a category name.
#[derive(Debug)]
pub struct ParseCategoryError;

impl core::str::FromStr for TestCategory {
    type Err = ParseCategoryError;

    /// Reads a category from its kebab-case name; the hyphen-free spelling
    /// of each two-word name is accepted too. Matching ignores case.
    fn from_str(s: &str) -> Result<Self, ParseCategoryError> {
        let lower = crate::text::lowercase_str(s);
        let t = lower.as_str();
        if crate::text::str_eq(t, "basic") {
            Ok(TestCategory::Basic)
        } else if crate::text::str_eq(t, "help") {
            Ok(TestCategory::Help)
        } else if crate::text::str_eq(t, "security") {
            Ok(TestCategory::Security)
        } else if crate::text::str_eq(t, "path") {
            Ok(TestCategory::Path)
        } else if crate::text::str_eq(t, "multi-shell") || crate::text::str_eq(t, "multishell") {
            Ok(TestCategory::MultiShell)
        } else if crate::text::str_eq(t, "input-validation") || crate::text::str_eq(
            t,
            "inputvalidation",
        ) {
            Ok(TestCategory::InputValidation)
        } else if crate::text::str_eq(t, "destructive-ops") || crate::text::str_eq(
            t,
            "destructiveops",
        ) {
            Ok(TestCategory::DestructiveOps)
        } else if crate::text::str_eq(t, "directory-traversal") || crate::text::str_eq(
            t,
            "directorytraversal",
        ) {
            Ok(TestCategory::DirectoryTraversal)
        } else if crate::text::str_eq(t, "performance") {
            Ok(TestCategory::Performance)
        } else {
            Err(ParseCategoryError)
        }
    }
}

} // verus!
