//! Option-type inference from keyword rules, and the augmentation passes
//! that attach numeric bounds and enum value lists.
//!
//! The rule and alias tables are plain values owned by the inferrer; the
//! built-in tables mirror common command-line vocabulary. Rules are kept
//! in decreasing priority order, so a lookup is one scan of the list and
//! the first matching rule wins.

use vstd::prelude::*;
use crate::text::{scan_over, skip_over, spec_contains, spec_lower, substring};
use crate::types::analysis::{
    option_type_model_wf, CliOption, OptionModel, OptionType, OptionTypeModel,
};

verus! {

/// One keyword rule: options whose name matches a keyword get this type.
#[derive(Debug, Clone, PartialEq)]
pub struct OptionPattern {
    /// Type the rule assigns: `numeric`, `path`, `enum`, `boolean` or
    /// `string`.
    pub pattern_type: String,
    /// Rule priority; higher wins.
    pub priority: u8,
    /// Keywords that trigger the rule.
    pub keywords: Vec<String>,
    /// What the rule is for.
    pub description: String,
}

/// How keyword matching behaves.
#[derive(Debug, Clone, Copy, PartialEq, Eq, Structural)]
pub struct PatternSettings {
    /// Compare with case preserved.
    pub case_sensitive: bool,
    /// Match a keyword anywhere in the name, not only whole.
    pub partial_match: bool,
    /// Shortest keyword allowed to match partially.
    pub min_keyword_length: usize,
}

/// The inference engine: priority-ordered rules, matching settings and
/// the fallback type.
#[derive(Debug, Clone, PartialEq)]
pub struct OptionInferrer {
    /// Rules, in decreasing priority order.
    pub patterns: Vec<OptionPattern>,
    /// Matching settings.
    pub settings: PatternSettings,
    /// Type name assigned when no rule matches.
    pub default_type: String,
}

// ---------------------------------------------------------------------------
// Matching
// ---------------------------------------------------------------------------

/// A name normalized for matching: lower-cased unless matching is
/// case-sensitive.
pub open spec fn spec_norm(s: Seq<char>, case_sensitive: bool) -> Seq<char> {
    if case_sensitive {
        s
    } else {
        spec_lower(s)
    }
}

/// One keyword matches the name: anywhere in it when partial matching is
/// on and the keyword is long enough, else exactly.
pub open spec fn spec_keyword_hit(name: Seq<char>, kw: Seq<char>, st: PatternSettings) -> bool {
    if st.partial_match {
        spec_norm(kw, st.case_sensitive).len() >= st.min_keyword_length && spec_contains(
            spec_norm(name, st.case_sensitive),
            spec_norm(kw, st.case_sensitive),
        )
    } else {
        spec_norm(name, st.case_sensitive) == spec_norm(kw, st.case_sensitive)
    }
}

/// Some keyword of the rule matches the name.
pub open spec fn spec_pattern_hit(name: Seq<char>, p: OptionPattern, st: PatternSettings) -> bool {
    exists|j: int| 0 <= j < p.keywords@.len() && spec_keyword_hit(name, #[trigger] p.keywords@[j]@, st)
}

fn keyword_hit(name: &str, kw: &str, st: &PatternSettings) -> (r: bool)
    ensures
        r == spec_keyword_hit(name@, kw@, *st),
{
    if st.partial_match {
        if st.case_sensitive {
            kw.unicode_len() >= st.min_keyword_length && crate::text::contains_str(name, kw)
        } else {
            let nkw = crate::text::lowercase_str(kw);
            let nname = crate::text::lowercase_str(name);
            nkw.as_str().unicode_len() >= st.min_keyword_length && crate::text::contains_str(
                nname.as_str(),
                nkw.as_str(),
            )
        }
    } else {
        if st.case_sensitive {
            crate::text::str_eq(name, kw)
        } else {
            let nkw = crate::text::lowercase_str(kw);
            let nname = crate::text::lowercase_str(name);
            crate::text::str_eq(nname.as_str(), nkw.as_str())
        }
    }
}

impl OptionInferrer {
    /// Whether the name matches one of the rule's keywords under this
    /// inferrer's settings.
    pub fn matches_pattern(&self, option_name: &str, pattern: &OptionPattern) -> (r: bool)
        ensures
            r == spec_pattern_hit(option_name@, *pattern, self.settings),
    {
        let n = pattern.keywords.len();
        let mut j: usize = 0;
        loop
            invariant
                j <= n,
                n == pattern.keywords@.len(),
                forall|k: int|
                    0 <= k < j ==> !spec_keyword_hit(
                        option_name@,
                        #[trigger] pattern.keywords@[k]@,
                        self.settings,
                    ),
            ensures
                (j < n && spec_keyword_hit(
                    option_name@,
                    pattern.keywords@[j as int]@,
                    self.settings,
                )) || (j == n && forall|k: int|
                    0 <= k < j ==> !spec_keyword_hit(
                        option_name@,
                        #[trigger] pattern.keywords@[k]@,
                        self.settings,
                    )),
            decreases n - j,
        {
            if j == n {
                break ;
            }
            if keyword_hit(option_name, pattern.keywords[j].as_str(), &self.settings) {
                break ;
            }
            j = j + 1;
        }
        j < n
    }
}

// ---------------------------------------------------------------------------
// Names and type words
// ---------------------------------------------------------------------------

/// The matching name of an option: its long flag if it has one, else its
/// short flag, else nothing — always with the leading hyphens stripped.
pub open spec fn spec_option_name(o: OptionModel) -> Seq<char> {
    match o.long {
        Some(l) => l.subrange(scan_over(l, 0, '-'), l.len() as int),
        None => match o.short {
            Some(s) => s.subrange(scan_over(s, 0, '-'), s.len() as int),
            None => Seq::empty(),
        },
    }
}

/// Strips every leading hyphen of a flag.
fn strip_dashes(flag: &str) -> (r: String)
    ensures
        r@ == flag@.subrange(scan_over(flag@, 0, '-'), flag@.len() as int),
{
    let n = flag.unicode_len();
    let a = skip_over(flag, 0, '-');
    substring(flag, a, n)
}

impl OptionInferrer {
    /// The name an option is matched under: `--timeout` becomes
    /// `timeout`, a short-only option `-p` becomes `p`.
    pub fn extract_option_name(&self, option: &CliOption) -> (r: String)
        ensures
            r@ == spec_option_name(option@),
    {
        match &option.long {
            Some(l) => strip_dashes(l.as_str()),
            None => match &option.short {
                Some(s) => strip_dashes(s.as_str()),
                None => String::new(),
            },
        }
    }
}

/// The option type a rule's type word stands for; an unknown word means
/// a string option.
pub open spec fn spec_word_type(t: Seq<char>) -> OptionTypeModel {
    if t == "numeric"@ {
        OptionTypeModel::Numeric { min: None, max: None }
    } else if t == "path"@ {
        OptionTypeModel::Path
    } else if t == "enum"@ {
        OptionTypeModel::Choice { values: Seq::empty() }
    } else if t == "boolean"@ {
        OptionTypeModel::Flag
    } else {
        OptionTypeModel::Str
    }
}

impl OptionInferrer {
    /// Turns a rule's type word into an option type.
    pub fn pattern_type_to_option_type(&self, pattern_type: &str) -> (r: OptionType)
        ensures
            r@ == spec_word_type(pattern_type@),
    {
        if crate::text::str_eq(pattern_type, "numeric") {
            OptionType::Numeric { min: None, max: None }
        } else if crate::text::str_eq(pattern_type, "path") {
            OptionType::Path
        } else if crate::text::str_eq(pattern_type, "enum") {
            let values: Vec<String> = Vec::new();
            let r = OptionType::Enum { values };
            proof {
                assert(r@ matches OptionTypeModel::Choice { values } && values =~= Seq::<
                    Seq<char>,
                >::empty());
            }
            r
        } else if crate::text::str_eq(pattern_type, "boolean") {
            OptionType::Flag
        } else {
            OptionType::String
        }
    }
}

// ---------------------------------------------------------------------------
// Inference
// ---------------------------------------------------------------------------

/// The new option is the old one with exactly the inferred type.
pub open spec fn type_inferred(inf: OptionInferrer, o_old: CliOption, o_new: CliOption) -> bool {
    &&& o_new.option_type@ == spec_infer_type(inf, o_old)
    &&& option_type_model_wf(o_new.option_type@)
    &&& o_new.short == o_old.short
    &&& o_new.long == o_old.long
    &&& o_new.description == o_old.description
    &&& o_new.required == o_old.required
    &&& o_new.default_value == o_old.default_value
}

/// Index of the first rule in `patterns[i..]` matching the name.
pub open spec fn spec_first_rule(
    patterns: Seq<OptionPattern>,
    i: int,
    name: Seq<char>,
    st: PatternSettings,
) -> Option<int>
    decreases patterns.len() - i,
{
    if i < 0 || i >= patterns.len() {
        None
    } else if spec_pattern_hit(name, patterns[i], st) {
        Some(i)
    } else {
        spec_first_rule(patterns, i + 1, name, st)
    }
}

/// The type inference assigns to one option model: a flag stays a
/// flag; any other option is matched by name against the rules in
/// order, the first hit's type word wins, and the default type word is
/// the fallback.
pub open spec fn spec_infer_type_model(inf: OptionInferrer, m: OptionModel) -> OptionTypeModel {
    if m.option_type is Flag {
        OptionTypeModel::Flag
    } else {
        let name = spec_option_name(m);
        match spec_first_rule(inf.patterns@, 0, name, inf.settings) {
            Some(i) => spec_word_type(inf.patterns@[i].pattern_type@),
            None => spec_word_type(inf.default_type@),
        }
    }
}

/// The same inference, read off an executable option.
pub open spec fn spec_infer_type(inf: OptionInferrer, o: CliOption) -> OptionTypeModel {
    spec_infer_type_model(inf, o@)
}

/// A whole option list after inference: every option keeps its fields
/// and receives its inferred type.
pub open spec fn spec_typed_options(inf: OptionInferrer, models: Seq<OptionModel>) -> Seq<
    OptionModel,
> {
    models.map_values(
        |m: OptionModel|
            OptionModel {
                short: m.short,
                long: m.long,
                description: m.description,
                option_type: spec_infer_type_model(inf, m),
                required: m.required,
                default_value: m.default_value,
            },
    )
}

impl OptionInferrer {
    /// Infers the type of one option. Flags are never reclassified.
    pub fn infer_type(&self, option: &CliOption) -> (r: OptionType)
        ensures
            r@ == spec_infer_type(*self, *option),
            option_type_model_wf(r@),
    {
        if matches!(option.option_type, OptionType::Flag) {
            return OptionType::Flag;
        }
        let option_name = self.extract_option_name(option);
        let n = self.patterns.len();
        let mut i: usize = 0;
        loop
            invariant
                i <= n,
                n == self.patterns@.len(),
                spec_first_rule(self.patterns@, 0, option_name@, self.settings) == spec_first_rule(
                    self.patterns@,
                    i as int,
                    option_name@,
                    self.settings,
                ),
            ensures
                spec_first_rule(self.patterns@, 0, option_name@, self.settings) == spec_first_rule(
                    self.patterns@,
                    i as int,
                    option_name@,
                    self.settings,
                ),
                i < n ==> spec_pattern_hit(option_name@, self.patterns@[i as int], self.settings),
                i == n ==> spec_first_rule(self.patterns@, 0, option_name@, self.settings) is None,
            decreases n - i,
        {
            if i == n {
                break ;
            }
            if self.matches_pattern(option_name.as_str(), &self.patterns[i]) {
                break ;
            }
            i = i + 1;
        }
        if i < n {
            self.pattern_type_to_option_type(self.patterns[i].pattern_type.as_str())
        } else {
            let d = self.default_type.clone();
            self.pattern_type_to_option_type(d.as_str())
        }
    }

    /// Infers the type of every option in place; all other fields stay.
    pub fn infer_types(&self, options: &mut Vec<CliOption>)
        ensures
            final(options)@.len() == old(options)@.len(),
            forall|j: int|
                0 <= j < old(options)@.len() ==> type_inferred(
                    *self,
                    old(options)@[j],
                    #[trigger] final(options)@[j],
                ),
    {
        let n = options.len();
        let mut done: Vec<CliOption> = Vec::new();
        let mut i: usize = 0;
        while i < n
            invariant
                i <= n,
                n == old(options)@.len(),
                options@ =~= old(options)@.skip(i as int),
                done@.len() == i,
                forall|j: int|
                    0 <= j < i ==> type_inferred(*self, old(options)@[j], #[trigger] done@[j]),
            decreases n - i,
        {
            let o = options.remove(0);
            proof {
                assert(o == old(options)@[i as int]);
            }
            let inferred = self.infer_type(&o);
            let CliOption { short, long, description, option_type, required, default_value } = o;
            done.push(
                CliOption { short, long, description, option_type: inferred, required, default_value },
            );
            proof {
                assert(options@ =~= old(options)@.skip(i + 1));
            }
            i = i + 1;
        }
        *options = done;
    }
}


// ---------------------------------------------------------------------------
// Built-in tables and construction
// ---------------------------------------------------------------------------

/// Spec model of one numeric-constraint table entry.
pub struct ConstraintModel {
    pub aliases: Seq<Seq<char>>,
    pub min: int,
    pub max: int,
}

/// One alias table entry for numeric bounds.
#[derive(Debug, Clone, PartialEq)]
pub struct NumericConstraint {
    /// Names the bounds apply to, matched anywhere in the option name.
    pub aliases: Vec<String>,
    /// Lower bound.
    pub min: i64,
    /// Upper bound.
    pub max: i64,
}

impl View for NumericConstraint {
    type V = ConstraintModel;

    open spec fn view(&self) -> ConstraintModel {
        ConstraintModel { aliases: self.aliases.deep_view(), min: self.min as int, max: self.max as int }
    }
}

/// Spec model of one enum table entry.
pub struct EnumDefModel {
    pub aliases: Seq<Seq<char>>,
    pub values: Seq<Seq<char>>,
}

/// One alias table entry for enum value lists.
#[derive(Debug, Clone, PartialEq)]
pub struct EnumDefinition {
    /// Names the values apply to, matched anywhere in the option name.
    pub aliases: Vec<String>,
    /// The allowed values.
    pub values: Vec<String>,
}

impl View for EnumDefinition {
    type V = EnumDefModel;

    open spec fn view(&self) -> EnumDefModel {
        EnumDefModel { aliases: self.aliases.deep_view(), values: self.values.deep_view() }
    }
}

/// Bounds given to a numeric option no alias matches.
pub const DEFAULT_NUMERIC_MIN: i64 = 0;

/// Upper bound given to a numeric option no alias matches.
pub const DEFAULT_NUMERIC_MAX: i64 = 1000000;

/// The built-in numeric-constraint table: ports, time spans and
/// percentages, in match order.
pub open spec fn spec_numeric_constraints() -> Seq<ConstraintModel> {
    seq![
        ConstraintModel { aliases: seq!["port"@], min: 1, max: 65535 },
        ConstraintModel {
            aliases: seq!["timeout"@, "duration"@, "delay"@, "interval"@],
            min: 0,
            max: 3600,
        },
        ConstraintModel { aliases: seq!["percent"@, "ratio"@], min: 0, max: 100 },
        ConstraintModel { aliases: seq!["depth"@, "level"@], min: 0, max: 32 },
        ConstraintModel { aliases: seq!["retries"@, "retry"@, "attempts"@], min: 0, max: 100 },
    ]
}

fn string_vec1(a: &str) -> (r: Vec<String>)
    ensures
        r.deep_view() =~= seq![a@],
{
    let mut r: Vec<String> = Vec::new();
    r.push(a.to_owned());
    r
}

fn string_vec2(a: &str, b: &str) -> (r: Vec<String>)
    ensures
        r.deep_view() =~= seq![a@, b@],
{
    let mut r: Vec<String> = Vec::new();
    r.push(a.to_owned());
    r.push(b.to_owned());
    r
}

fn string_vec3(a: &str, b: &str, c: &str) -> (r: Vec<String>)
    ensures
        r.deep_view() =~= seq![a@, b@, c@],
{
    let mut r: Vec<String> = Vec::new();
    r.push(a.to_owned());
    r.push(b.to_owned());
    r.push(c.to_owned());
    r
}

fn string_vec4(a: &str, b: &str, c: &str, d: &str) -> (r: Vec<String>)
    ensures
        r.deep_view() =~= seq![a@, b@, c@, d@],
{
    let mut r: Vec<String> = Vec::new();
    r.push(a.to_owned());
    r.push(b.to_owned());
    r.push(c.to_owned());
    r.push(d.to_owned());
    r
}

fn string_vec5(a: &str, b: &str, c: &str, d: &str, e: &str) -> (r: Vec<String>)
    ensures
        r.deep_view() =~= seq![a@, b@, c@, d@, e@],
{
    let mut r: Vec<String> = Vec::new();
    r.push(a.to_owned());
    r.push(b.to_owned());
    r.push(c.to_owned());
    r.push(d.to_owned());
    r.push(e.to_owned());
    r
}

/// The built-in numeric-constraint table.
pub fn default_numeric_constraints() -> (r: Vec<NumericConstraint>)
    ensures
        r@.map_values(|c: NumericConstraint| c@) == spec_numeric_constraints(),
{
    let mut r: Vec<NumericConstraint> = Vec::new();
    r.push(NumericConstraint { aliases: string_vec1("port"), min: 1, max: 65535 });
    r.push(
        NumericConstraint {
            aliases: string_vec4("timeout", "duration", "delay", "interval"),
            min: 0,
            max: 3600,
        },
    );
    r.push(NumericConstraint { aliases: string_vec2("percent", "ratio"), min: 0, max: 100 });
    r.push(NumericConstraint { aliases: string_vec2("depth", "level"), min: 0, max: 32 });
    r.push(
        NumericConstraint { aliases: string_vec3("retries", "retry", "attempts"), min: 0, max: 100 },
    );
    proof {
        let m = r@.map_values(|c: NumericConstraint| c@);
        assert(m[0].aliases =~= spec_numeric_constraints()[0].aliases);
        assert(m[0] == spec_numeric_constraints()[0]);
        assert(m[1].aliases =~= spec_numeric_constraints()[1].aliases);
        assert(m[1] == spec_numeric_constraints()[1]);
        assert(m[2].aliases =~= spec_numeric_constraints()[2].aliases);
        assert(m[2] == spec_numeric_constraints()[2]);
        assert(m[3].aliases =~= spec_numeric_constraints()[3].aliases);
        assert(m[3] == spec_numeric_constraints()[3]);
        assert(m[4].aliases =~= spec_numeric_constraints()[4].aliases);
        assert(m[4] == spec_numeric_constraints()[4]);
        assert(m =~= spec_numeric_constraints());
    }
    r
}

/// The built-in enum table: output formats, log levels, protocols and
/// color modes, in match order.
pub open spec fn spec_enum_definitions() -> Seq<EnumDefModel> {
    seq![
        EnumDefModel {
            aliases: seq!["format"@, "output"@],
            values: seq!["json"@, "yaml"@, "xml"@, "toml"@],
        },
        EnumDefModel {
            aliases: seq!["log-level"@, "verbosity"@],
            values: seq!["debug"@, "info"@, "warn"@, "error"@, "trace"@],
        },
        EnumDefModel {
            aliases: seq!["protocol"@, "scheme"@],
            values: seq!["http"@, "https"@, "ftp"@, "ssh"@],
        },
        EnumDefModel { aliases: seq!["color"@], values: seq!["auto"@, "always"@, "never"@] },
    ]
}

/// The built-in enum table.
pub fn default_enum_definitions() -> (r: Vec<EnumDefinition>)
    ensures
        r@.map_values(|d: EnumDefinition| d@) == spec_enum_definitions(),
{
    let mut r: Vec<EnumDefinition> = Vec::new();
    r.push(
        EnumDefinition {
            aliases: string_vec2("format", "output"),
            values: string_vec4("json", "yaml", "xml", "toml"),
        },
    );
    r.push(
        EnumDefinition {
            aliases: string_vec2("log-level", "verbosity"),
            values: string_vec5("debug", "info", "warn", "error", "trace"),
        },
    );
    r.push(
        EnumDefinition {
            aliases: string_vec2("protocol", "scheme"),
            values: string_vec4("http", "https", "ftp", "ssh"),
        },
    );
    r.push(
        EnumDefinition { aliases: string_vec1("color"), values: string_vec3("auto", "always", "never") },
    );
    proof {
        let m = r@.map_values(|d: EnumDefinition| d@);
        assert(m[0].aliases =~= spec_enum_definitions()[0].aliases);
        assert(m[0].values =~= spec_enum_definitions()[0].values);
        assert(m[0] == spec_enum_definitions()[0]);
        assert(m[1].aliases =~= spec_enum_definitions()[1].aliases);
        assert(m[1].values =~= spec_enum_definitions()[1].values);
        assert(m[1] == spec_enum_definitions()[1]);
        assert(m[2].aliases =~= spec_enum_definitions()[2].aliases);
        assert(m[2].values =~= spec_enum_definitions()[2].values);
        assert(m[2] == spec_enum_definitions()[2]);
        assert(m[3].aliases =~= spec_enum_definitions()[3].aliases);
        assert(m[3].values =~= spec_enum_definitions()[3].values);
        assert(m[3] == spec_enum_definitions()[3]);
        assert(m =~= spec_enum_definitions());
    }
    r
}

/// Spec model of one keyword rule.
pub struct PatternModel {
    pub pattern_type: Seq<char>,
    pub priority: u8,
    pub keywords: Seq<Seq<char>>,
}

impl View for OptionPattern {
    type V = PatternModel;

    open spec fn view(&self) -> PatternModel {
        PatternModel {
            pattern_type: self.pattern_type@,
            priority: self.priority,
            keywords: self.keywords.deep_view(),
        }
    }
}

/// The built-in rule list, in decreasing priority order: numeric names
/// first, then enum-like names, then path-like names.
pub open spec fn spec_default_patterns() -> Seq<PatternModel> {
    seq![
        PatternModel {
            pattern_type: "numeric"@,
            priority: 10,
            keywords: seq![
                "port"@,
                "timeout"@,
                "duration"@,
                "count"@,
                "size"@,
                "limit"@,
                "depth"@,
                "retries"@,
                "percent"@,
                "ratio"@,
                "jobs"@,
                "threads"@,
            ],
        },
        PatternModel {
            pattern_type: "enum"@,
            priority: 9,
            keywords: seq!["format"@, "log-level"@, "mode"@, "protocol"@, "color"@, "compression"@],
        },
        PatternModel {
            pattern_type: "path"@,
            priority: 8,
            keywords: seq!["file"@, "path"@, "dir"@, "directory"@, "config"@, "input"@, "dest"@],
        },
    ]
}

fn push_str(v: &mut Vec<String>, s: &str)
    ensures
        final(v).deep_view() =~= old(v).deep_view().push(s@),
{
    v.push(s.to_owned());
    proof {
        assert(final(v).deep_view() =~= old(v).deep_view().push(s@));
    }
}

impl OptionInferrer {
    /// The built-in inference engine: the default rule list, partial
    /// case-insensitive matching with three-character keywords at least,
    /// and `string` as the fallback type. Always succeeds; the `Result`
    /// mirrors engines whose tables come from external configuration.
    pub fn new() -> (r: Result<Self, crate::error::CliTestError>)
        ensures
            r is Ok,
            r->Ok_0.patterns@.map_values(|p: OptionPattern| p@) == spec_default_patterns(),
            r->Ok_0.settings == (PatternSettings {
                case_sensitive: false,
                partial_match: true,
                min_keyword_length: 3,
            }),
            r->Ok_0.default_type@ == "string"@,
    {
        let mut numeric_kw: Vec<String> = Vec::new();
        push_str(&mut numeric_kw, "port");
        push_str(&mut numeric_kw, "timeout");
        push_str(&mut numeric_kw, "duration");
        push_str(&mut numeric_kw, "count");
        push_str(&mut numeric_kw, "size");
        push_str(&mut numeric_kw, "limit");
        push_str(&mut numeric_kw, "depth");
        push_str(&mut numeric_kw, "retries");
        push_str(&mut numeric_kw, "percent");
        push_str(&mut numeric_kw, "ratio");
        push_str(&mut numeric_kw, "jobs");
        push_str(&mut numeric_kw, "threads");
        let mut enum_kw: Vec<String> = Vec::new();
        push_str(&mut enum_kw, "format");
        push_str(&mut enum_kw, "log-level");
        push_str(&mut enum_kw, "mode");
        push_str(&mut enum_kw, "protocol");
        push_str(&mut enum_kw, "color");
        push_str(&mut enum_kw, "compression");
        let mut path_kw: Vec<String> = Vec::new();
        push_str(&mut path_kw, "file");
        push_str(&mut path_kw, "path");
        push_str(&mut path_kw, "dir");
        push_str(&mut path_kw, "directory");
        push_str(&mut path_kw, "config");
        push_str(&mut path_kw, "input");
        push_str(&mut path_kw, "dest");
        let mut patterns: Vec<OptionPattern> = Vec::new();
        patterns.push(
            OptionPattern {
                pattern_type: "numeric".to_owned(),
                priority: 10,
                keywords: numeric_kw,
                description: "names that carry a number".to_owned(),
            },
        );
        patterns.push(
            OptionPattern {
                pattern_type: "enum".to_owned(),
                priority: 9,
                keywords: enum_kw,
                description: "names with a fixed set of values".to_owned(),
            },
        );
        patterns.push(
            OptionPattern {
                pattern_type: "path".to_owned(),
                priority: 8,
                keywords: path_kw,
                description: "names that carry a filesystem path".to_owned(),
            },
        );
        let r = OptionInferrer {
            patterns,
            settings: PatternSettings {
                case_sensitive: false,
                partial_match: true,
                min_keyword_length: 3,
            },
            default_type: "string".to_owned(),
        };
        proof {
            let models = r.patterns@.map_values(|p: OptionPattern| p@);
            assert(models[0].keywords =~= spec_default_patterns()[0].keywords);
            assert(models[0] == spec_default_patterns()[0]);
            assert(models[1].keywords =~= spec_default_patterns()[1].keywords);
            assert(models[1] == spec_default_patterns()[1]);
            assert(models[2].keywords =~= spec_default_patterns()[2].keywords);
            assert(models[2] == spec_default_patterns()[2]);
            assert(models =~= spec_default_patterns());
        }
        Ok(r)
    }
}

impl Default for OptionInferrer {
    /// The same engine `new` builds.
    fn default() -> (r: Self)
        ensures
            r.patterns@.map_values(|p: OptionPattern| p@) == spec_default_patterns(),
            r.settings == (PatternSettings {
                case_sensitive: false,
                partial_match: true,
                min_keyword_length: 3,
            }),
            r.default_type@ == "string"@,
    {
        match OptionInferrer::new() {
            Ok(r) => r,
            Err(_) => {
                proof {
                    assert(false);
                }
                OptionInferrer {
                    patterns: Vec::new(),
                    settings: PatternSettings {
                        case_sensitive: false,
                        partial_match: true,
                        min_keyword_length: 3,
                    },
                    default_type: "string".to_owned(),
                }
            },
        }
    }
}

// ---------------------------------------------------------------------------
// Constraint and enum augmentation
// ---------------------------------------------------------------------------

/// The name an option is matched under during augmentation: the long or
/// short flag, hyphens stripped, lower-cased.
pub open spec fn spec_augment_name(o: OptionModel) -> Seq<char> {
    spec_lower(spec_option_name(o))
}

/// A constraint entry matches when any of its aliases occurs in the name.
pub open spec fn spec_alias_hit(name: Seq<char>, aliases: Seq<Seq<char>>) -> bool {
    exists|j: int| 0 <= j < aliases.len() && spec_contains(name, spec_lower(#[trigger] aliases[j]))
}

/// The bounds the constraint table assigns to a numeric option's name:
/// those of the first entry an alias of which occurs in the name, else
/// the default bounds.
pub open spec fn spec_constraint_bounds(
    table: Seq<ConstraintModel>,
    i: int,
    name: Seq<char>,
) -> (int, int)
    decreases table.len() - i,
{
    if i < 0 || i >= table.len() {
        (DEFAULT_NUMERIC_MIN as int, DEFAULT_NUMERIC_MAX as int)
    } else if spec_alias_hit(name, table[i].aliases) {
        (table[i].min, table[i].max)
    } else {
        spec_constraint_bounds(table, i + 1, name)
    }
}

/// The value list the enum table assigns to an option's name: that of
/// the first entry an alias of which occurs in the name, else `None`
/// for no change.
pub open spec fn spec_enum_values(
    table: Seq<EnumDefModel>,
    i: int,
    name: Seq<char>,
) -> Option<Seq<Seq<char>>>
    decreases table.len() - i,
{
    if i < 0 || i >= table.len() {
        None
    } else if spec_alias_hit(name, table[i].aliases) {
        Some(table[i].values)
    } else {
        spec_enum_values(table, i + 1, name)
    }
}

fn alias_hit_exec(name: &str, aliases: &Vec<String>) -> (r: bool)
    ensures
        r == spec_alias_hit(name@, aliases.deep_view()),
{
    let n = aliases.len();
    let mut j: usize = 0;
    loop
        invariant
            j <= n,
            n == aliases@.len(),
            aliases.deep_view().len() == n,
            forall|k: int|
                0 <= k < j ==> !spec_contains(name@, spec_lower(#[trigger] aliases.deep_view()[k])),
        ensures
            (j < n && spec_contains(name@, spec_lower(aliases.deep_view()[j as int]))) || (j == n
                && forall|k: int|
                0 <= k < j ==> !spec_contains(name@, spec_lower(#[trigger] aliases.deep_view()[k]))),
        decreases n - j,
    {
        if j == n {
            break ;
        }
        let lowered = crate::text::lowercase_str(aliases[j].as_str());
        proof {
            assert(aliases.deep_view()[j as int] == aliases@[j as int]@);
        }
        if crate::text::contains_str(name, lowered.as_str()) {
            break ;
        }
        j = j + 1;
    }
    j < n
}

/// The new option is the old one, with the given table's bounds when
/// it is numeric: both ends set together, from the first constraint
/// entry an alias of which occurs in the option's name, or the
/// defaults.
pub open spec fn constraints_applied_with(
    table: Seq<ConstraintModel>,
    o_old: CliOption,
    o_new: CliOption,
) -> bool {
    let bounds = spec_constraint_bounds(table, 0, spec_augment_name(o_old@));
    &&& (o_old.option_type is Numeric ==> o_new.option_type@
        == OptionTypeModel::Numeric { min: Some(bounds.0), max: Some(bounds.1) })
    &&& (!(o_old.option_type is Numeric) ==> o_new == o_old)
    &&& o_new.short == o_old.short
    &&& o_new.long == o_old.long
    &&& o_new.description == o_old.description
    &&& o_new.required == o_old.required
    &&& o_new.default_value == o_old.default_value
    &&& option_type_model_wf(o_new.option_type@)
}

/// The same relation under the built-in constraint table.
pub open spec fn constraints_applied(o_old: CliOption, o_new: CliOption) -> bool {
    constraints_applied_with(spec_numeric_constraints(), o_old, o_new)
}

/// Assigns bounds to every numeric option from the built-in constraint
/// table: the first matching entry's bounds, or the default bounds —
/// both ends always set together. Options of any other type are
/// untouched.
pub fn apply_numeric_constraints(options: &mut Vec<CliOption>)
    ensures
        final(options)@.len() == old(options)@.len(),
        forall|j: int|
            0 <= j < old(options)@.len() ==> constraints_applied(
                old(options)@[j],
                #[trigger] final(options)@[j],
            ),
{
    let table = default_numeric_constraints();
    apply_numeric_constraints_with(options, &table);
}

/// Assigns bounds to every numeric option from a caller-supplied
/// constraint table, for tables that come from external configuration.
pub fn apply_numeric_constraints_with(options: &mut Vec<CliOption>, table: &Vec<NumericConstraint>)
    ensures
        final(options)@.len() == old(options)@.len(),
        forall|j: int|
            0 <= j < old(options)@.len() ==> constraints_applied_with(
                table@.map_values(|c: NumericConstraint| c@),
                old(options)@[j],
                #[trigger] final(options)@[j],
            ),
{
    let name_helper = OptionInferrer {
        patterns: Vec::new(),
        settings: PatternSettings {
            case_sensitive: false,
            partial_match: true,
            min_keyword_length: 3,
        },
        default_type: String::new(),
    };
    let ghost table_model = table@.map_values(|c: NumericConstraint| c@);
    let n = options.len();
    let mut done: Vec<CliOption> = Vec::new();
    let mut i: usize = 0;
    while i < n
        invariant
            i <= n,
            n == old(options)@.len(),
            options@ =~= old(options)@.skip(i as int),
            done@.len() == i,
            table_model == table@.map_values(|c: NumericConstraint| c@),
            forall|j: int|
                0 <= j < i ==> constraints_applied_with(
                    table_model,
                    old(options)@[j],
                    #[trigger] done@[j],
                ),
        decreases n - i,
    {
        let o = options.remove(0);
        proof {
            assert(o == old(options)@[i as int]);
        }
        let is_numeric = matches!(&o.option_type, OptionType::Numeric { .. });
        if is_numeric {
            let flag_name = name_helper.extract_option_name(&o);
            let name = crate::text::lowercase_str(flag_name.as_str());
            let bounds = constraint_bounds_exec(&table, name.as_str());
            let CliOption { short, long, description, option_type, required, default_value } = o;
            done.push(
                CliOption {
                    short,
                    long,
                    description,
                    option_type: OptionType::Numeric { min: Some(bounds.0), max: Some(bounds.1) },
                    required,
                    default_value,
                },
            );
        } else {
            done.push(o);
        }
        proof {
            assert(options@ =~= old(options)@.skip(i + 1));
        }
        i = i + 1;
    }
    *options = done;
}

/// Bounds from the constraint table for a normalized name.
fn constraint_bounds_exec(table: &Vec<NumericConstraint>, name: &str) -> (r: (i64, i64))
    ensures
        (r.0 as int, r.1 as int) == spec_constraint_bounds(
            table@.map_values(|c: NumericConstraint| c@),
            0,
            name@,
        ),
{
    let ghost model = table@.map_values(|c: NumericConstraint| c@);
    let n = table.len();
    let mut i: usize = 0;
    loop
        invariant
            i <= n,
            n == table@.len(),
            model == table@.map_values(|c: NumericConstraint| c@),
            spec_constraint_bounds(model, 0, name@) == spec_constraint_bounds(model, i as int, name@),
        ensures
            spec_constraint_bounds(model, 0, name@) == spec_constraint_bounds(model, i as int, name@),
            i < n ==> spec_alias_hit(name@, model[i as int].aliases),
            i == n ==> spec_constraint_bounds(model, 0, name@) == (
                DEFAULT_NUMERIC_MIN as int,
                DEFAULT_NUMERIC_MAX as int,
            ),
        decreases n - i,
    {
        if i == n {
            break ;
        }
        proof {
            assert(model[i as int] == table@[i as int]@);
        }
        if alias_hit_exec(name, &table[i].aliases) {
            break ;
        }
        i = i + 1;
    }
    if i < n {
        proof {
            assert(model[i as int] == table@[i as int]@);
        }
        (table[i].min, table[i].max)
    } else {
        (DEFAULT_NUMERIC_MIN, DEFAULT_NUMERIC_MAX)
    }
}

/// The new option is the old one, with the given table's value list
/// when it is an enum option an alias matches; an unmatched enum
/// option keeps its list.
pub open spec fn enum_values_loaded_with(
    table: Seq<EnumDefModel>,
    o_old: CliOption,
    o_new: CliOption,
) -> bool {
    let assigned = spec_enum_values(table, 0, spec_augment_name(o_old@));
    &&& (o_old.option_type is Enum ==> o_new.option_type@ == OptionTypeModel::Choice {
        values: match assigned {
            Some(v) => v,
            None => o_old.option_type@->Choice_values,
        },
    })
    &&& (!(o_old.option_type is Enum) ==> o_new == o_old)
    &&& o_new.short == o_old.short
    &&& o_new.long == o_old.long
    &&& o_new.description == o_old.description
    &&& o_new.required == o_old.required
    &&& o_new.default_value == o_old.default_value
    &&& (option_type_model_wf(o_old.option_type@) ==> option_type_model_wf(o_new.option_type@))
}

/// The same relation under the built-in enum table.
pub open spec fn enum_values_loaded(o_old: CliOption, o_new: CliOption) -> bool {
    enum_values_loaded_with(spec_enum_definitions(), o_old, o_new)
}

/// Fills the value list of every enum option the built-in table's
/// aliases match; unmatched enum options keep their list, and options
/// of any other type are untouched.
pub fn load_enum_values(options: &mut Vec<CliOption>)
    ensures
        final(options)@.len() == old(options)@.len(),
        forall|j: int|
            0 <= j < old(options)@.len() ==> enum_values_loaded(
                old(options)@[j],
                #[trigger] final(options)@[j],
            ),
{
    let table = default_enum_definitions();
    load_enum_values_with(options, &table);
}

/// Fills enum value lists from a caller-supplied table, for tables
/// that come from external configuration.
pub fn load_enum_values_with(options: &mut Vec<CliOption>, table: &Vec<EnumDefinition>)
    ensures
        final(options)@.len() == old(options)@.len(),
        forall|j: int|
            0 <= j < old(options)@.len() ==> enum_values_loaded_with(
                table@.map_values(|d: EnumDefinition| d@),
                old(options)@[j],
                #[trigger] final(options)@[j],
            ),
{
    let name_helper = OptionInferrer {
        patterns: Vec::new(),
        settings: PatternSettings {
            case_sensitive: false,
            partial_match: true,
            min_keyword_length: 3,
        },
        default_type: String::new(),
    };
    let ghost table_model = table@.map_values(|d: EnumDefinition| d@);
    let n = options.len();
    let mut done: Vec<CliOption> = Vec::new();
    let mut i: usize = 0;
    while i < n
        invariant
            i <= n,
            n == old(options)@.len(),
            options@ =~= old(options)@.skip(i as int),
            done@.len() == i,
            table_model == table@.map_values(|d: EnumDefinition| d@),
            forall|j: int|
                0 <= j < i ==> enum_values_loaded_with(
                    table_model,
                    old(options)@[j],
                    #[trigger] done@[j],
                ),
        decreases n - i,
    {
        let o = options.remove(0);
        proof {
            assert(o == old(options)@[i as int]);
        }
        let is_enum = matches!(&o.option_type, OptionType::Enum { .. });
        if is_enum {
            let flag_name = name_helper.extract_option_name(&o);
            let name = crate::text::lowercase_str(flag_name.as_str());
            let assigned = enum_values_exec(&table, name.as_str());
            let CliOption { short, long, description, option_type, required, default_value } = o;
            let kept_values = match option_type {
                OptionType::Enum { values } => values,
                _ => {
                    proof {
                        assert(false);
                    }
                    Vec::new()
                },
            };
            let new_values = match assigned {
                Some(v) => v,
                None => kept_values,
            };
            done.push(
                CliOption {
                    short,
                    long,
                    description,
                    option_type: OptionType::Enum { values: new_values },
                    required,
                    default_value,
                },
            );
        } else {
            done.push(o);
        }
        proof {
            assert(options@ =~= old(options)@.skip(i + 1));
        }
        i = i + 1;
    }
    *options = done;
}

/// Value list from the enum table for a normalized name, or `None` when
/// no alias matches.
fn enum_values_exec(table: &Vec<EnumDefinition>, name: &str) -> (r: Option<Vec<String>>)
    ensures
        match r {
            Some(v) => spec_enum_values(
                table@.map_values(|d: EnumDefinition| d@),
                0,
                name@,
            ) == Some(v.deep_view()),
            None => spec_enum_values(table@.map_values(|d: EnumDefinition| d@), 0, name@) is None,
        },
{
    let ghost model = table@.map_values(|d: EnumDefinition| d@);
    let n = table.len();
    let mut i: usize = 0;
    loop
        invariant
            i <= n,
            n == table@.len(),
            model == table@.map_values(|d: EnumDefinition| d@),
            spec_enum_values(model, 0, name@) == spec_enum_values(model, i as int, name@),
        ensures
            spec_enum_values(model, 0, name@) == spec_enum_values(model, i as int, name@),
            i < n ==> spec_alias_hit(name@, model[i as int].aliases),
            i == n ==> spec_enum_values(model, 0, name@) is None,
        decreases n - i,
    {
        if i == n {
            break ;
        }
        proof {
            assert(model[i as int] == table@[i as int]@);
        }
        if alias_hit_exec(name, &table[i].aliases) {
            break ;
        }
        i = i + 1;
    }
    if i < n {
        proof {
            assert(model[i as int] == table@[i as int]@);
        }
        let values = &table[i].values;
        let m = values.len();
        let mut copied: Vec<String> = Vec::new();
        let mut j: usize = 0;
        while j < m
            invariant
                j <= m,
                m == values@.len(),
                copied@.len() == j,
                forall|k: int| 0 <= k < j ==> #[trigger] copied@[k] == values@[k],
            decreases m - j,
        {
            copied.push(values[j].clone());
            j = j + 1;
        }
        proof {
            assert(copied.deep_view() =~= values.deep_view());
        }
        Some(copied)
    } else {
        None
    }
}


} // verus!
