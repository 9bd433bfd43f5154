//! The analysis record: what was discovered about one binary.

use vstd::prelude::*;
use vstd::multiset::Multiset;

verus! {

/// The inferred type of an option's value.
#[derive(Debug, Clone, PartialEq, Eq)]
pub enum OptionType {
    /// Boolean flag taking no value, such as `--verbose`.
    Flag,
    /// Free-form string value.
    String,
    /// Numeric value; the bounds are either both set or both unset.
    Numeric { min: Option<i64>, max: Option<i64> },
    /// File or directory path.
    Path,
    /// Value from a fixed set of choices; the list may be empty when no
    /// alias table matched.
    Enum { values: Vec<String> },
}

/// One command-line option of a binary or of a subcommand.
#[derive(Debug, Clone, PartialEq)]
pub struct CliOption {
    /// Short flag, such as `-h`.
    pub short: Option<String>,
    /// Long flag, such as `--help`.
    pub long: Option<String>,
    /// Trailing description text.
    pub description: Option<String>,
    /// Inferred type.
    pub option_type: OptionType,
    /// Whether the option is required; the analyzer itself always reports
    /// `false`, consumers may set it later.
    pub required: bool,
    /// Default value, when one is known.
    pub default_value: Option<String>,
}

/// A discovered subcommand with its own options and nested subcommands.
#[derive(Debug, PartialEq)]
pub struct Subcommand {
    /// Subcommand name.
    pub name: String,
    /// Description text, when the help listed one.
    pub description: Option<String>,
    /// Options specific to this subcommand.
    pub options: Vec<CliOption>,
    /// Required positional arguments from the subcommand's usage line.
    pub required_args: Vec<String>,
    /// Nested subcommands.
    pub subcommands: Vec<Subcommand>,
    /// Nesting depth; 0 is the top level.
    pub depth: u8,
}

/// Statistics recomputed over the finished analysis.
#[derive(Debug, Clone, PartialEq)]
pub struct AnalysisMetadata {
    /// Timestamp of the analysis, ISO 8601.
    pub analyzed_at: String,
    /// Version tag of the analyzer.
    pub analyzer_version: String,
    /// Subcommands discovered, nested ones included.
    pub total_subcommands: usize,
    /// Options discovered, global ones included.
    pub total_options: usize,
    /// How long the analysis took, in milliseconds.
    pub analysis_duration_ms: u64,
}

/// Everything discovered about one binary.
#[derive(Debug, PartialEq)]
pub struct CliAnalysis {
    /// Canonical path of the analyzed binary.
    pub binary_path: String,
    /// File name of the binary.
    pub binary_name: String,
    /// Version string, when one was found.
    pub version: Option<String>,
    /// Raw help text the analysis was built from.
    pub help_output: String,
    /// Discovered subcommand tree.
    pub subcommands: Vec<Subcommand>,
    /// Global options.
    pub global_options: Vec<CliOption>,
    /// Statistics.
    pub metadata: AnalysisMetadata,
}

// ---------------------------------------------------------------------------
// Spec-level model of an option
// ---------------------------------------------------------------------------

/// Spec model of `OptionType`, over mathematical values.
pub enum OptionTypeModel {
    Flag,
    Str,
    Numeric { min: Option<int>, max: Option<int> },
    Path,
    Choice { values: Seq<Seq<char>> },
}

/// Spec model of `CliOption`.
pub struct OptionModel {
    pub short: Option<Seq<char>>,
    pub long: Option<Seq<char>>,
    pub description: Option<Seq<char>>,
    pub option_type: OptionTypeModel,
    pub required: bool,
    pub default_value: Option<Seq<char>>,
}

impl View for OptionType {
    type V = OptionTypeModel;

    open spec fn view(&self) -> OptionTypeModel {
        match self {
            OptionType::Flag => OptionTypeModel::Flag,
            OptionType::String => OptionTypeModel::Str,
            OptionType::Numeric { min, max } => OptionTypeModel::Numeric {
                min: match min {
                    Some(v) => Some(*v as int),
                    None => None,
                },
                max: match max {
                    Some(v) => Some(*v as int),
                    None => None,
                },
            },
            OptionType::Path => OptionTypeModel::Path,
            OptionType::Enum { values } => OptionTypeModel::Choice { values: values.deep_view() },
        }
    }
}

impl View for CliOption {
    type V = OptionModel;

    open spec fn view(&self) -> OptionModel {
        OptionModel {
            short: self.short.deep_view(),
            long: self.long.deep_view(),
            description: self.description.deep_view(),
            option_type: self.option_type@,
            required: self.required,
            default_value: self.default_value.deep_view(),
        }
    }
}

/// A numeric option carries both bounds or neither.
pub open spec fn option_type_model_wf(t: OptionTypeModel) -> bool {
    match t {
        OptionTypeModel::Numeric { min, max } => (min is Some) <==> (max is Some),
        _ => true,
    }
}

/// An option names at least one flag, and its type is well-formed.
pub open spec fn option_model_wf(o: OptionModel) -> bool {
    option_type_model_wf(o.option_type) && (o.short is Some || o.long is Some)
}

/// Well-formedness of an executable option value.
pub open spec fn option_wf(o: CliOption) -> bool {
    option_model_wf(o@)
}

/// For a well-formed numeric option the two bounds stand or fall
/// together: `min` is set exactly when `max` is. Every option the
/// parser, the inference engine and the augmentation passes hand out is
/// well-formed in this sense.
pub proof fn lemma_numeric_bounds_paired(t: OptionTypeModel)
    requires
        option_type_model_wf(t),
    ensures
        t matches OptionTypeModel::Numeric { min, max } ==> ((min is Some) <==> (max is Some)),
{
}

// ---------------------------------------------------------------------------
// Recursive counts over the subcommand tree
// ---------------------------------------------------------------------------

/// Number of subcommand nodes in one tree, the root included.
pub open spec fn spec_tree_count(s: Subcommand) -> nat
    decreases s, 0int,
{
    1 + spec_forest_count(s.subcommands@, 0)
}

/// Number of subcommand nodes in the trees `subs[i..]`.
pub open spec fn spec_forest_count(subs: Seq<Subcommand>, i: int) -> nat
    decreases subs, subs.len() - i,
{
    if i < 0 || i >= subs.len() {
        0nat
    } else {
        spec_tree_count(subs[i]) + spec_forest_count(subs, i + 1)
    }
}

/// Number of options in one tree, at the root and below.
pub open spec fn spec_tree_options(s: Subcommand) -> nat
    decreases s, 0int,
{
    s.options@.len() + spec_forest_options(s.subcommands@, 0)
}

/// Number of options in the trees `subs[i..]`.
pub open spec fn spec_forest_options(subs: Seq<Subcommand>, i: int) -> nat
    decreases subs, subs.len() - i,
{
    if i < 0 || i >= subs.len() {
        0nat
    } else {
        spec_tree_options(subs[i]) + spec_forest_options(subs, i + 1)
    }
}

// ---------------------------------------------------------------------------
// Structural well-formedness of the tree: depths and name keys
// ---------------------------------------------------------------------------

/// The node sits at `depth`, strictly below `max_depth`, and its children
/// sit one level deeper.
pub open spec fn spec_tree_wf(s: Subcommand, depth: u8, max_depth: u8) -> bool
    decreases s, 0int,
{
    &&& s.depth == depth
    &&& (depth as int) < (max_depth as int)
    &&& spec_forest_wf(s.subcommands@, 0, (depth + 1) as u8, max_depth)
}

/// Well-formedness of the trees `subs[i..]` at one depth.
pub open spec fn spec_forest_wf(subs: Seq<Subcommand>, i: int, depth: u8, max_depth: u8) -> bool
    decreases subs, subs.len() - i,
{
    if i < 0 || i >= subs.len() {
        true
    } else {
        spec_tree_wf(subs[i], depth, max_depth) && spec_forest_wf(subs, i + 1, depth, max_depth)
    }
}

/// The deepest `depth` field anywhere in one tree.
pub open spec fn spec_tree_depth_max(s: Subcommand) -> int
    decreases s, 0int,
{
    let below = spec_forest_depth_max(s.subcommands@, 0);
    if s.depth as int >= below {
        s.depth as int
    } else {
        below
    }
}

/// The deepest `depth` field anywhere in the trees `subs[i..]`; an
/// empty forest reports -1.
pub open spec fn spec_forest_depth_max(subs: Seq<Subcommand>, i: int) -> int
    decreases subs, subs.len() - i,
{
    if i < 0 || i >= subs.len() {
        -1
    } else {
        let here = spec_tree_depth_max(subs[i]);
        let rest = spec_forest_depth_max(subs, i + 1);
        if here >= rest {
            here
        } else {
            rest
        }
    }
}

/// A well-formed forest never reaches the configured depth bound: the
/// deepest node of any discovered tree sits strictly below `max_depth`.
pub proof fn lemma_wf_depth_bounded(subs: Seq<Subcommand>, i: int, depth: u8, max_depth: u8)
    requires
        spec_forest_wf(subs, i, depth, max_depth),
    ensures
        spec_forest_depth_max(subs, i) < max_depth as int,
    decreases subs, subs.len() - i,
{
    if 0 <= i && i < subs.len() {
        lemma_tree_wf_depth_bounded(subs[i], depth, max_depth);
        lemma_wf_depth_bounded(subs, i + 1, depth, max_depth);
    }
}

/// A well-formed tree keeps every node's depth strictly below the bound.
pub proof fn lemma_tree_wf_depth_bounded(s: Subcommand, depth: u8, max_depth: u8)
    requires
        spec_tree_wf(s, depth, max_depth),
    ensures
        spec_tree_depth_max(s) < max_depth as int,
    decreases s, 1int,
{
    lemma_wf_depth_bounded(s.subcommands@, 0, (depth + 1) as u8, max_depth);
}

/// All subcommand names in one tree, with multiplicity.
pub open spec fn spec_tree_names(s: Subcommand) -> Multiset<Seq<char>>
    decreases s, 0int,
{
    spec_forest_names(s.subcommands@, 0).insert(s.name@)
}

/// All subcommand names in the trees `subs[i..]`, with multiplicity.
pub open spec fn spec_forest_names(subs: Seq<Subcommand>, i: int) -> Multiset<Seq<char>>
    decreases subs, subs.len() - i,
{
    if i < 0 || i >= subs.len() {
        Multiset::empty()
    } else {
        spec_tree_names(subs[i]).add(spec_forest_names(subs, i + 1))
    }
}

/// No name occurs twice: no two nodes share a visitation key, since every
/// key pairs the one binary path with the node's name.
pub open spec fn names_distinct(m: Multiset<Seq<char>>) -> bool {
    forall|x: Seq<char>| #[trigger] m.count(x) <= 1
}

// ---------------------------------------------------------------------------
// Executable counts and metadata maintenance
// ---------------------------------------------------------------------------

/// Total number of subcommand nodes, nested ones included.
pub fn count_subcommands(subcommands: &Vec<Subcommand>) -> (r: usize)
    requires
        spec_forest_count(subcommands@, 0) <= usize::MAX,
    ensures
        r == spec_forest_count(subcommands@, 0),
    decreases subcommands@,
{
    let n = subcommands.len();
    let mut total: usize = 0;
    let mut i: usize = 0;
    while i < n
        invariant
            i <= n,
            n == subcommands@.len(),
            spec_forest_count(subcommands@, 0) <= usize::MAX,
            spec_forest_count(subcommands@, 0) == total + spec_forest_count(subcommands@, i as int),
        decreases n - i,
    {
        proof {
            assert(decreases_to!(subcommands@ => subcommands@[i as int].subcommands@));
            assert(spec_forest_count(subcommands@, i as int) == spec_tree_count(
                subcommands@[i as int],
            ) + spec_forest_count(subcommands@, i + 1));
            assert(spec_tree_count(subcommands@[i as int]) == 1 + spec_forest_count(
                subcommands@[i as int].subcommands@,
                0,
            ));
        }
        let sub = count_subcommands(&subcommands[i].subcommands);
        total = total + 1 + sub;
        i = i + 1;
    }
    total
}

/// Total number of options attached to subcommands, nested ones included.
pub fn count_options(subcommands: &Vec<Subcommand>) -> (r: usize)
    requires
        spec_forest_options(subcommands@, 0) <= usize::MAX,
    ensures
        r == spec_forest_options(subcommands@, 0),
    decreases subcommands@,
{
    let n = subcommands.len();
    let mut total: usize = 0;
    let mut i: usize = 0;
    while i < n
        invariant
            i <= n,
            n == subcommands@.len(),
            spec_forest_options(subcommands@, 0) <= usize::MAX,
            spec_forest_options(subcommands@, 0) == total + spec_forest_options(
                subcommands@,
                i as int,
            ),
        decreases n - i,
    {
        proof {
            assert(decreases_to!(subcommands@ => subcommands@[i as int].subcommands@));
            assert(spec_forest_options(subcommands@, i as int) == spec_tree_options(
                subcommands@[i as int],
            ) + spec_forest_options(subcommands@, i + 1));
            assert(spec_tree_options(subcommands@[i as int])
                == subcommands@[i as int].options@.len() + spec_forest_options(
                subcommands@[i as int].subcommands@,
                0,
            ));
        }
        let nested = count_options(&subcommands[i].subcommands);
        total = total + subcommands[i].options.len() + nested;
        i = i + 1;
    }
    total
}

impl CliAnalysis {
    /// A fresh analysis record with empty option and subcommand lists and
    /// zeroed statistics. The timestamp is left empty for the caller to
    /// fill, since the library does not read a clock.
    pub fn new(binary_path: String, binary_name: String, help_output: String) -> (r: Self)
        ensures
            r.binary_path == binary_path,
            r.binary_name == binary_name,
            r.version is None,
            r.help_output == help_output,
            r.subcommands@.len() == 0,
            r.global_options@.len() == 0,
            r.metadata.analyzed_at@.len() == 0,
            r.metadata.analyzer_version@ == "0.1.0"@,
            r.metadata.total_subcommands == 0,
            r.metadata.total_options == 0,
            r.metadata.analysis_duration_ms == 0,
    {
        CliAnalysis {
            binary_path,
            binary_name,
            version: None,
            help_output,
            subcommands: Vec::new(),
            global_options: Vec::new(),
            metadata: AnalysisMetadata {
                analyzed_at: String::new(),
                analyzer_version: "0.1.0".to_owned(),
                total_subcommands: 0,
                total_options: 0,
                analysis_duration_ms: 0,
            },
        }
    }

    /// Recompute the statistics from the finished tree; they are never
    /// maintained incrementally.
    pub fn update_metadata(&mut self, duration_ms: u64)
        requires
            spec_forest_count(old(self).subcommands@, 0) <= usize::MAX,
            old(self).global_options@.len() + spec_forest_options(old(self).subcommands@, 0)
                <= usize::MAX,
        ensures
            final(self).metadata.total_subcommands == spec_forest_count(old(self).subcommands@, 0),
            final(self).metadata.total_options == old(self).global_options@.len()
                + spec_forest_options(old(self).subcommands@, 0),
            final(self).metadata.analysis_duration_ms == duration_ms,
            final(self).metadata.analyzed_at == old(self).metadata.analyzed_at,
            final(self).metadata.analyzer_version == old(self).metadata.analyzer_version,
            final(self).binary_path == old(self).binary_path,
            final(self).binary_name == old(self).binary_name,
            final(self).version == old(self).version,
            final(self).help_output == old(self).help_output,
            final(self).subcommands == old(self).subcommands,
            final(self).global_options == old(self).global_options,
    {
        self.metadata.total_subcommands = count_subcommands(&self.subcommands);
        self.metadata.total_options = self.global_options.len() + count_options(&self.subcommands);
        self.metadata.analysis_duration_ms = duration_ms;
    }
}

} // verus!
