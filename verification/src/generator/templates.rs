//! The embedded test templates and the `${NAME}` substitution engine.

use vstd::prelude::*;
use crate::error::CliTestError;

verus! {

/// The names of the embedded templates, in load order.
pub open spec fn spec_template_names() -> Seq<Seq<char>> {
    seq![
        "bats-test"@,
        "concurrency-test"@,
        "destructive-ops"@,
        "directory-traversal-limits"@,
        "input-validation"@,
        "performance-test"@,
        "subcommand-help"@,
    ]
}

/// The embedded templates, name and content, in load order.
pub open spec fn spec_templates_table() -> Seq<(Seq<char>, Seq<char>)> {
    seq![
        (
            "bats-test"@,
            "#!/usr/bin/env bats\n\n@test \"${TEST_NAME}\" {\n  run ${COMMAND}\n  [ \"$status\" -eq ${EXPECTED_EXIT} ]\n}\n"@,
        ),
        (
            "concurrency-test"@,
            "@test \"${TEST_NAME} stays consistent under parallel runs\" {\n  run ${COMMAND} &\n  run ${COMMAND}\n  wait\n  [ \"$status\" -eq 0 ]\n}\n"@,
        ),
        (
            "destructive-ops"@,
            "@test \"${TEST_NAME} asks before destructive work\" {\n  run ${COMMAND}\n  [ \"$status\" -eq ${CANCEL_EXIT} ]\n}\n"@,
        ),
        (
            "directory-traversal-limits"@,
            "@test \"${TEST_NAME} stays inside ${TEST_DIR}\" {\n  run ${COMMAND}\n  [ ! -e \"${TEST_DIR}/../escaped\" ]\n}\n"@,
        ),
        (
            "input-validation"@,
            "@test \"${TEST_NAME} rejects malformed input\" {\n  run ${COMMAND} ${BAD_INPUT}\n  [ \"$status\" -ne 0 ]\n}\n"@,
        ),
        (
            "performance-test"@,
            "@test \"${TEST_NAME} starts within ${MAX_MS} ms\" {\n  start=$(date +%s%N)\n  run ${COMMAND}\n  end=$(date +%s%N)\n  [ $(((end - start) / 1000000)) -le ${MAX_MS} ]\n}\n"@,
        ),
        (
            "subcommand-help"@,
            "@test \"${SUBCOMMAND} shows help\" {\n  run ${BINARY} ${SUBCOMMAND} --help\n  [ \"$status\" -eq 0 ]\n  [ -n \"$output\" ]\n}\n"@,
        ),
    ]
}

/// `s` with every occurrence of `pat` replaced by `val`, scanning left
/// to right without revisiting replaced text; an empty pattern replaces
/// nothing.
pub open spec fn spec_replace(s: Seq<char>, pat: Seq<char>, val: Seq<char>) -> Seq<char>
    decreases s.len(),
    via spec_replace_dec
{
    if pat.len() == 0 || pat.len() > s.len() {
        s
    } else if spec_starts(s, pat) {
        val + spec_replace(s.skip(pat.len() as int), pat, val)
    } else {
        seq![s[0]] + spec_replace(s.skip(1), pat, val)
    }
}

#[via_fn]
proof fn spec_replace_dec(s: Seq<char>, pat: Seq<char>, val: Seq<char>) {
}

/// Prefix test used by the replacement scan.
pub open spec fn spec_starts(s: Seq<char>, pat: Seq<char>) -> bool {
    pat.len() <= s.len() && s.take(pat.len() as int) == pat
}

/// Replaces every occurrence of `pat` in `s` by `val`.
pub fn replace_all(s: &str, pat: &str, val: &str) -> (r: String)
    ensures
        r@ == spec_replace(s@, pat@, val@),
    decreases s@.len(),
{
    let n = s.unicode_len();
    let m = pat.unicode_len();
    if m == 0 || m > n {
        return s.to_owned();
    }
    if crate::text::match_at(s, 0, pat) {
        proof {
            assert(s@.subrange(0, m as int) =~= s@.take(m as int));
        }
        let rest = crate::text::substring(s, m, n);
        let tail = replace_all(rest.as_str(), pat, val);
        let mut r = val.to_owned();
        r.append(tail.as_str());
        proof {
            assert(rest@ =~= s@.skip(m as int));
        }
        r
    } else {
        proof {
            assert(s@.subrange(0, m as int) =~= s@.take(m as int));
        }
        let rest = crate::text::substring(s, 1, n);
        let tail = replace_all(rest.as_str(), pat, val);
        let mut r = String::new();
        r.push(s.get_char(0));
        r.append(tail.as_str());
        proof {
            assert(rest@ =~= s@.skip(1));
            assert(r@ =~= seq![s@[0]] + spec_replace(s@.skip(1), pat@, val@));
        }
        r
    }
}

/// One `${NAME}` placeholder.
pub open spec fn spec_placeholder(key: Seq<char>) -> Seq<char> {
    "${"@ + key + "}"@
}

/// The template after substituting the variables in order: for each
/// `(key, value)` pair, every `${key}` becomes the value. A variable
/// the template does not name changes nothing; a placeholder without a
/// variable stays as it is.
pub open spec fn spec_substitute(
    t: Seq<char>,
    vars: Seq<(Seq<char>, Seq<char>)>,
    i: int,
) -> Seq<char>
    decreases vars.len() - i,
{
    if i < 0 || i >= vars.len() {
        t
    } else {
        spec_substitute(spec_replace(t, spec_placeholder(vars[i].0), vars[i].1), vars, i + 1)
    }
}

/// Loads and renders the embedded test templates.
pub struct TemplateEngine {
    /// Loaded `(name, content)` pairs, in load order.
    pub templates: Vec<(String, String)>,
}

impl TemplateEngine {
    /// An engine with no templates loaded yet. Always succeeds; the
    /// `Result` mirrors engines that load templates from elsewhere.
    pub fn new() -> (r: Result<Self, CliTestError>)
        ensures
            r is Ok,
            r->Ok_0.templates@.len() == 0,
    {
        Ok(TemplateEngine { templates: Vec::new() })
    }

    /// Loads the embedded templates; afterwards exactly the seven known
    /// templates are available, names and contents, in load order.
    pub fn load_templates(&mut self) -> (r: Result<(), CliTestError>)
        ensures
            r is Ok,
            final(self).templates@.map_values(|t: (String, String)| (t.0@, t.1@))
                == spec_templates_table(),
            final(self).templates@.map_values(|t: (String, String)| t.0@)
                == spec_template_names(),
    {
        let mut templates: Vec<(String, String)> = Vec::new();
        templates.push(
            (
                "bats-test".to_owned(),
                "#!/usr/bin/env bats\n\n@test \"${TEST_NAME}\" {\n  run ${COMMAND}\n  [ \"$status\" -eq ${EXPECTED_EXIT} ]\n}\n".to_owned(),
            ),
        );
        templates.push(
            (
                "concurrency-test".to_owned(),
                "@test \"${TEST_NAME} stays consistent under parallel runs\" {\n  run ${COMMAND} &\n  run ${COMMAND}\n  wait\n  [ \"$status\" -eq 0 ]\n}\n".to_owned(),
            ),
        );
        templates.push(
            (
                "destructive-ops".to_owned(),
                "@test \"${TEST_NAME} asks before destructive work\" {\n  run ${COMMAND}\n  [ \"$status\" -eq ${CANCEL_EXIT} ]\n}\n".to_owned(),
            ),
        );
        templates.push(
            (
                "directory-traversal-limits".to_owned(),
                "@test \"${TEST_NAME} stays inside ${TEST_DIR}\" {\n  run ${COMMAND}\n  [ ! -e \"${TEST_DIR}/../escaped\" ]\n}\n".to_owned(),
            ),
        );
        templates.push(
            (
                "input-validation".to_owned(),
                "@test \"${TEST_NAME} rejects malformed input\" {\n  run ${COMMAND} ${BAD_INPUT}\n  [ \"$status\" -ne 0 ]\n}\n".to_owned(),
            ),
        );
        templates.push(
            (
                "performance-test".to_owned(),
                "@test \"${TEST_NAME} starts within ${MAX_MS} ms\" {\n  start=$(date +%s%N)\n  run ${COMMAND}\n  end=$(date +%s%N)\n  [ $(((end - start) / 1000000)) -le ${MAX_MS} ]\n}\n".to_owned(),
            ),
        );
        templates.push(
            (
                "subcommand-help".to_owned(),
                "@test \"${SUBCOMMAND} shows help\" {\n  run ${BINARY} ${SUBCOMMAND} --help\n  [ \"$status\" -eq 0 ]\n  [ -n \"$output\" ]\n}\n".to_owned(),
            ),
        );
        proof {
            assert(templates@.map_values(|t: (String, String)| (t.0@, t.1@))
                =~= spec_templates_table());
            assert(templates@.map_values(|t: (String, String)| t.0@) =~= spec_template_names());
        }
        self.templates = templates;
        Ok(())
    }

    /// The content of the named template, or a configuration error when
    /// no loaded template has the name.
    pub fn get_template(&self, name: &str) -> (r: Result<&str, CliTestError>)
        ensures
            match r {
                Ok(content) => exists|j: int|
                    0 <= j < self.templates@.len() && (#[trigger] self.templates@[j]).0@ == name@
                        && self.templates@[j].1@ == content@,
                Err(e) => (forall|j: int|
                    0 <= j < self.templates@.len() ==> (#[trigger] self.templates@[j]).0@ != name@)
                    && (e matches CliTestError::Config(m) && m@ == "Template not found: "@ + name@),
            },
    {
        let n = self.templates.len();
        let mut i: usize = 0;
        loop
            invariant
                i <= n,
                n == self.templates@.len(),
                forall|j: int| 0 <= j < i ==> (#[trigger] self.templates@[j]).0@ != name@,
            ensures
                (i < n && self.templates@[i as int].0@ == name@) || (i == n && forall|j: int|
                    0 <= j < i ==> (#[trigger] self.templates@[j]).0@ != name@),
            decreases n - i,
        {
            if i == n {
                break ;
            }
            if crate::text::str_eq(self.templates[i].0.as_str(), name) {
                break ;
            }
            i = i + 1;
        }
        if i < n {
            Ok(self.templates[i].1.as_str())
        } else {
            let mut m = "Template not found: ".to_owned();
            m.append(name);
            Err(CliTestError::Config(m))
        }
    }

    /// Substitutes `${NAME}` placeholders: each variable pair replaces
    /// every occurrence of its placeholder, in the order given. A
    /// placeholder with no variable is left as it is.
    pub fn substitute(&self, template: &str, variables: &Vec<(String, String)>) -> (r: String)
        ensures
            r@ == spec_substitute(
                template@,
                variables@.map_values(|v: (String, String)| (v.0@, v.1@)),
                0,
            ),
    {
        let ghost vars_model = variables@.map_values(|v: (String, String)| (v.0@, v.1@));
        let n = variables.len();
        let mut result = template.to_owned();
        let mut i: usize = 0;
        while i < n
            invariant
                i <= n,
                n == variables@.len(),
                vars_model == variables@.map_values(|v: (String, String)| (v.0@, v.1@)),
                spec_substitute(template@, vars_model, 0) == spec_substitute(
                    result@,
                    vars_model,
                    i as int,
                ),
            decreases n - i,
        {
            let mut placeholder = "${".to_owned();
            placeholder.append(variables[i].0.as_str());
            placeholder.append("}");
            proof {
                assert(vars_model[i as int] == (variables@[i as int].0@, variables@[i as int].1@));
                assert(placeholder@ == spec_placeholder(vars_model[i as int].0));
            }
            result = replace_all(result.as_str(), placeholder.as_str(), variables[i].1.as_str());
            i = i + 1;
        }
        result
    }

    /// Renders the named template with the given variables.
    pub fn render(&self, template_name: &str, variables: &Vec<(String, String)>) -> (r: Result<
        String,
        CliTestError,
    >)
        ensures
            r is Ok ==> exists|j: int|
                0 <= j < self.templates@.len() && (#[trigger] self.templates@[j]).0@
                    == template_name@ && r->Ok_0@ == spec_substitute(
                    self.templates@[j].1@,
                    variables@.map_values(|v: (String, String)| (v.0@, v.1@)),
                    0,
                ),
            r is Err ==> forall|j: int|
                0 <= j < self.templates@.len() ==> (#[trigger] self.templates@[j]).0@
                    != template_name@,
    {
        let template = match self.get_template(template_name) {
            Ok(t) => t,
            Err(e) => {
                return Err(e);
            },
        };
        Ok(self.substitute(template, variables))
    }

    /// The names of the loaded templates, in load order.
    pub fn available_templates(&self) -> (r: Vec<String>)
        ensures
            r@.map_values(|s: String| s@) == self.templates@.map_values(
                |t: (String, String)| t.0@,
            ),
    {
        let n = self.templates.len();
        let mut names: Vec<String> = Vec::new();
        let mut i: usize = 0;
        while i < n
            invariant
                i <= n,
                n == self.templates@.len(),
                names@.len() == i,
                forall|j: int| 0 <= j < i ==> (#[trigger] names@[j])@ == self.templates@[j].0@,
            decreases n - i,
        {
            names.push(self.templates[i].0.clone());
            i = i + 1;
        }
        proof {
            assert(names@.map_values(|s: String| s@) =~= self.templates@.map_values(
                |t: (String, String)| t.0@,
            ));
        }
        names
    }

    /// Checks that the named template exists; the caller may warn about
    /// required variables the template does not name, which is not an
    /// error.
    pub fn validate_template(&self, template_name: &str, required_vars: &Vec<String>) -> (r:
        Result<(), CliTestError>)
        ensures
            r is Ok <==> exists|j: int|
                0 <= j < self.templates@.len() && (#[trigger] self.templates@[j]).0@
                    == template_name@,
    {
        let template = match self.get_template(template_name) {
            Ok(t) => t,
            Err(e) => {
                return Err(e);
            },
        };
        let n = required_vars.len();
        let mut i: usize = 0;
        while i < n
            invariant
                i <= n,
                n == required_vars@.len(),
            decreases n - i,
        {
            let mut placeholder = "${".to_owned();
            placeholder.append(required_vars[i].as_str());
            placeholder.append("}");
            let _present = crate::text::contains_str(template, placeholder.as_str());
            i = i + 1;
        }
        Ok(())
    }
}

} // verus!
