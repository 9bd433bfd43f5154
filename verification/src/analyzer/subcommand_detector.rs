//! Recursive subcommand discovery: depth-bounded, cycle-safe traversal
//! of the subcommand tree a binary's help text describes.
//!
//! Discovery alternates probes and decisions, so it is a state machine:
//! the walk asks for the help text of one candidate at a time, and the
//! caller runs the probe and hands the output back. The walk owes a
//! probe for every captured candidate whose visitation key — the
//! binary path paired with the name — is fresh, and it maintains two
//! guarantees about the finished forest: no node ends deeper than the
//! configured bound, and no two nodes of one walk share a key.

use vstd::prelude::*;
use vstd::multiset::Multiset;
use crate::analyzer::cli_parser::CliParser;
use crate::analyzer::option_inferrer::OptionInferrer;
use crate::error::CliTestError;
use crate::text::{
    is_kebab_char, is_lower_char, lemma_scan_spaces, lemma_scan_until, scan_kebab, scan_spaces,
    scan_until, skip_kebab, skip_spaces, skip_until, spec_lines, spec_starts_with, spec_trim,
    split_lines, substring, trim_str,
};
use crate::types::analysis::{
    names_distinct, spec_forest_names, spec_forest_wf, spec_tree_names, spec_tree_wf, CliOption,
    Subcommand,
};
use crate::utils::resource_limits::ResourceLimits;

verus! {

/// Default bound on discovery depth.
pub const MAX_RECURSION_DEPTH: u8 = 3;

// ---------------------------------------------------------------------------
// Parsing candidate lines
// ---------------------------------------------------------------------------

/// Section headers that open a subcommand listing.
pub open spec fn spec_section_headers() -> Seq<Seq<char>> {
    seq![
        "Commands:"@,
        "Available Commands:"@,
        "Subcommands:"@,
        "Available subcommands:"@,
        "COMMANDS:"@,
        "SUBCOMMANDS:"@,
    ]
}

/// The trimmed line opens a subcommand section.
pub open spec fn spec_is_header(l: Seq<char>) -> bool {
    exists|i: int|
        0 <= i < spec_section_headers().len() && spec_starts_with(
            spec_trim(l),
            #[trigger] spec_section_headers()[i],
        )
}

/// A bracket group can be read at `p`: at least one space, `[`, a
/// nonempty body, `]`.
pub open spec fn can_group(l: Seq<char>, p: int) -> bool {
    let w = scan_spaces(l, p);
    let k = scan_until(l, w + 1, ']');
    &&& w > p
    &&& w < l.len()
    &&& l[w] == '['
    &&& k > w + 1
    &&& k < l.len()
}

/// Position after the bracket group at `p`.
pub open spec fn group_next(l: Seq<char>, p: int) -> int {
    scan_until(l, scan_spaces(l, p) + 1, ']') + 1
}

/// The description separator read at `p`: two or more spaces, then at
/// least one character.
pub open spec fn sep_desc(l: Seq<char>, p: int) -> Option<int> {
    let w = scan_spaces(l, p);
    if w - p >= 2 && w < l.len() {
        Some(w)
    } else {
        None
    }
}

/// Start of the description after the candidate's name ending at `p`:
/// bracketed argument groups are consumed greedily, and dropped from the
/// end while no separator and description follow.
pub open spec fn tail_match(l: Seq<char>, p: int) -> Option<int>
    decreases l.len() - p,
    via tail_match_dec
{
    if !(0 <= p && p <= l.len()) {
        None
    } else if can_group(l, p) {
        match tail_match(l, group_next(l, p)) {
            Some(d) => Some(d),
            None => sep_desc(l, p),
        }
    } else {
        sep_desc(l, p)
    }
}

#[via_fn]
proof fn tail_match_dec(l: Seq<char>, p: int) {
    if 0 <= p && p <= l.len() && can_group(l, p) {
        lemma_scan_spaces(l, p);
        lemma_scan_until(l, scan_spaces(l, p) + 1, ']');
    }
}

/// What a line of a subcommand section contributes: a kebab-case name of
/// at least two characters after two or more spaces of indentation,
/// optional bracketed argument groups, a separator of two or more
/// spaces, and the trimmed description.
pub open spec fn spec_sub_line(l: Seq<char>) -> Option<(Seq<char>, Seq<char>)> {
    let w = scan_spaces(l, 0);
    let e = scan_kebab(l, w + 1);
    if w >= 2 && w + 1 < l.len() && is_lower_char(l[w]) && is_kebab_char(l[w + 1]) {
        match tail_match(l, e) {
            Some(d) => Some((l.subrange(w, e), spec_trim(l.subrange(d, l.len() as int)))),
            None => None,
        }
    } else {
        None
    }
}

/// The candidates of the lines `lines[i..]`: a header line opens a
/// section, a blank line closes it, and inside a section every line
/// matching the candidate shape is collected in order.
pub open spec fn spec_subs_rec(
    lines: Seq<Seq<char>>,
    i: int,
    in_section: bool,
    acc: Seq<(Seq<char>, Seq<char>)>,
) -> Seq<(Seq<char>, Seq<char>)>
    decreases lines.len() - i,
{
    if i < 0 || i >= lines.len() {
        acc
    } else if !in_section {
        spec_subs_rec(lines, i + 1, spec_is_header(lines[i]), acc)
    } else if spec_trim(lines[i]).len() == 0 {
        spec_subs_rec(lines, i + 1, false, acc)
    } else {
        match spec_sub_line(lines[i]) {
            Some(c) => spec_subs_rec(lines, i + 1, true, acc.push(c)),
            None => spec_subs_rec(lines, i + 1, true, acc),
        }
    }
}

/// Every `(name, description)` candidate of a help text, in order of
/// first appearance; all sections are scanned.
pub open spec fn spec_parse_subcommands(s: Seq<char>) -> Seq<(Seq<char>, Seq<char>)> {
    spec_subs_rec(spec_lines(s), 0, false, Seq::empty())
}

fn is_header_exec(l: &str) -> (r: bool)
    ensures
        r == spec_is_header(l@),
{
    let t = trim_str(l);
    let ts = t.as_str();
    let mut headers: Vec<&'static str> = Vec::new();
    headers.push("Commands:");
    headers.push("Available Commands:");
    headers.push("Subcommands:");
    headers.push("Available subcommands:");
    headers.push("COMMANDS:");
    headers.push("SUBCOMMANDS:");
    proof {
        assert(headers.deep_view() =~= spec_section_headers());
    }
    let n = headers.len();
    let mut i: usize = 0;
    loop
        invariant
            i <= n,
            n == spec_section_headers().len(),
            headers.deep_view() == spec_section_headers(),
            headers@.len() == n,
            t@ == spec_trim(l@),
            ts@ == spec_trim(l@),
            forall|k: int|
                0 <= k < i ==> !spec_starts_with(spec_trim(l@), #[trigger] spec_section_headers()[k]),
        ensures
            (i < n && spec_starts_with(spec_trim(l@), spec_section_headers()[i as int])) || (i == n
                && forall|k: int|
                0 <= k < i ==> !spec_starts_with(
                    spec_trim(l@),
                    #[trigger] spec_section_headers()[k],
                )),
        decreases n - i,
    {
        if i == n {
            break ;
        }
        proof {
            assert(headers.deep_view()[i as int] == headers@[i as int]@);
        }
        if crate::text::starts_with_str(ts, headers[i]) {
            break ;
        }
        i = i + 1;
    }
    i < n
}

fn tail_match_exec(l: &str, p: usize) -> (r: Option<usize>)
    requires
        p <= l@.len(),
    ensures
        match r {
            Some(d) => tail_match(l@, p as int) == Some(d as int) && d <= l@.len(),
            None => tail_match(l@, p as int) is None,
        },
    decreases l@.len() - p,
{
    let n = l.unicode_len();
    let w = skip_spaces(l, p);
    let grouped = if w > p && w < n && l.get_char(w) == '[' {
        let k = skip_until(l, w + 1, ']');
        if k > w + 1 && k < n {
            Some(k + 1)
        } else {
            None
        }
    } else {
        None
    };
    match grouped {
        Some(next) => {
            proof {
                assert(can_group(l@, p as int));
                assert(group_next(l@, p as int) == next as int);
            }
            match tail_match_exec(l, next) {
                Some(d) => Some(d),
                None => {
                    if w - p >= 2 && w < n {
                        Some(w)
                    } else {
                        None
                    }
                },
            }
        },
        None => {
            proof {
                assert(!can_group(l@, p as int));
            }
            if w - p >= 2 && w < n {
                Some(w)
            } else {
                None
            }
        },
    }
}

/// Reads one line as a subcommand candidate, if it has the shape.
pub fn subcommand_line(l: &str) -> (r: Option<(String, String)>)
    ensures
        match r {
            Some(c) => spec_sub_line(l@) == Some((c.0@, c.1@)),
            None => spec_sub_line(l@) is None,
        },
{
    let n = l.unicode_len();
    let w = skip_spaces(l, 0);
    if w < 2 || n - w < 2 {
        return None;
    }
    if !crate::text::lower_alpha_char(l.get_char(w)) {
        return None;
    }
    if !crate::text::kebab_char(l.get_char(w + 1)) {
        return None;
    }
    let e = skip_kebab(l, w + 1);
    match tail_match_exec(l, e) {
        Some(d) => {
            let name = substring(l, w, e);
            let tail = substring(l, d, n);
            let description = trim_str(tail.as_str());
            Some((name, description))
        },
        None => None,
    }
}

// ---------------------------------------------------------------------------
// The detector
// ---------------------------------------------------------------------------

/// Configuration of subcommand discovery: probe limits, the inference
/// engine applied to each discovered subcommand's options, and the
/// depth bound.
pub struct SubcommandDetector {
    /// Limits applied to every probe run for this detector.
    pub resource_limits: ResourceLimits,
    /// Types of discovered options are inferred with this engine.
    pub option_inferrer: OptionInferrer,
    /// Discovery never explores candidates at this depth or deeper.
    pub max_depth: u8,
}

impl SubcommandDetector {
    /// A detector with the default limits, the built-in inference
    /// engine and the default depth bound.
    pub fn new() -> (r: Result<Self, CliTestError>)
        ensures
            r is Ok,
            r->Ok_0.max_depth == MAX_RECURSION_DEPTH,
            r->Ok_0.option_inferrer.patterns@.map_values(|p: crate::analyzer::option_inferrer::OptionPattern| p@)
                == crate::analyzer::option_inferrer::spec_default_patterns(),
    {
        let option_inferrer = match OptionInferrer::new() {
            Ok(inf) => inf,
            Err(e) => {
                return Err(e);
            },
        };
        Ok(
            SubcommandDetector {
                resource_limits: ResourceLimits::default(),
                option_inferrer,
                max_depth: MAX_RECURSION_DEPTH,
            },
        )
    }

    /// A detector with a custom depth bound.
    pub fn with_max_depth(max_depth: u8) -> (r: Result<Self, CliTestError>)
        ensures
            r is Ok,
            r->Ok_0.max_depth == max_depth,
            r->Ok_0.option_inferrer.patterns@.map_values(|p: crate::analyzer::option_inferrer::OptionPattern| p@)
                == crate::analyzer::option_inferrer::spec_default_patterns(),
    {
        let option_inferrer = match OptionInferrer::new() {
            Ok(inf) => inf,
            Err(e) => {
                return Err(e);
            },
        };
        Ok(
            SubcommandDetector {
                resource_limits: ResourceLimits::default(),
                option_inferrer,
                max_depth,
            },
        )
    }

    /// Reads the candidate `(name, description)` pairs out of a help
    /// text, in order; only lines inside a subcommand section count.
    pub fn parse_subcommands(&self, help_output: &str) -> (r: Vec<(String, String)>)
        ensures
            r@.map_values(|c: (String, String)| (c.0@, c.1@)) == spec_parse_subcommands(
                help_output@,
            ),
    {
        subcommand_candidates(help_output)
    }
}

/// Reads the candidate `(name, description)` pairs out of a help text.
pub fn subcommand_candidates(help_output: &str) -> (r: Vec<(String, String)>)
    ensures
        r@.map_values(|c: (String, String)| (c.0@, c.1@)) == spec_parse_subcommands(
            help_output@,
        ),
{
    {
        let lines = split_lines(help_output);
        let n = lines.len();
        let mut subs: Vec<(String, String)> = Vec::new();
        let mut in_section = false;
        let mut i: usize = 0;
        proof {
            assert(subs@.map_values(|c: (String, String)| (c.0@, c.1@)) =~= Seq::<
                (Seq<char>, Seq<char>),
            >::empty());
        }
        while i < n
            invariant
                i <= n,
                n == lines@.len(),
                lines@.map_values(|l: String| l@) == spec_lines(help_output@),
                spec_subs_rec(spec_lines(help_output@), 0, false, Seq::empty()) == spec_subs_rec(
                    spec_lines(help_output@),
                    i as int,
                    in_section,
                    subs@.map_values(|c: (String, String)| (c.0@, c.1@)),
                ),
            decreases n - i,
        {
            let ghost acc_before = subs@.map_values(|c: (String, String)| (c.0@, c.1@));
            proof {
                assert(spec_lines(help_output@)[i as int] == lines@[i as int]@);
            }
            if !in_section {
                in_section = is_header_exec(lines[i].as_str());
            } else if crate::text::is_blank(lines[i].as_str()) {
                in_section = false;
            } else {
                match subcommand_line(lines[i].as_str()) {
                    Some(c) => {
                        subs.push(c);
                        proof {
                            assert(subs@.map_values(|c: (String, String)| (c.0@, c.1@))
                                =~= acc_before.push(
                                (subs@[subs@.len() - 1].0@, subs@[subs@.len() - 1].1@),
                            ));
                        }
                    },
                    None => {},
                }
            }
            i = i + 1;
        }
        subs
    }
}

impl Default for SubcommandDetector {
    /// The same detector `new` builds.
    fn default() -> (r: Self)
        ensures
            r.max_depth == MAX_RECURSION_DEPTH,
    {
        match SubcommandDetector::new() {
            Ok(d) => d,
            Err(_) => {
                proof {
                    assert(false);
                }
                SubcommandDetector {
                    resource_limits: ResourceLimits::default(),
                    option_inferrer: OptionInferrer::default(),
                    max_depth: MAX_RECURSION_DEPTH,
                }
            },
        }
    }
}


// ---------------------------------------------------------------------------
// The discovery walk
// ---------------------------------------------------------------------------

/// The visitation key of one candidate: the binary path, a hyphen, the
/// candidate name.
pub open spec fn spec_key(binary: Seq<char>, name: Seq<char>) -> Seq<char> {
    binary + seq!['-'] + name
}

/// A discovered subcommand whose nested children are still being walked.
struct PartialSubcommand {
    name: String,
    description: String,
    options: Vec<CliOption>,
    required_args: Vec<String>,
    depth: u8,
}

/// One level of the walk: candidates not yet probed, finished trees,
/// and the node waiting for this level's children.
struct DiscoveryFrame {
    pending: Vec<(String, String)>,
    depth: u8,
    built: Vec<Subcommand>,
    parent: Option<PartialSubcommand>,
}

/// Names in one frame: its finished trees and its waiting parent.
spec fn frame_names(f: DiscoveryFrame) -> Multiset<Seq<char>> {
    spec_forest_names(f.built@, 0).add(
        match f.parent {
            Some(p) => Multiset::empty().insert(p.name@),
            None => Multiset::empty(),
        },
    )
}

/// Names in the frames `stack[i..]`.
spec fn stack_names(stack: Seq<DiscoveryFrame>, i: int) -> Multiset<Seq<char>>
    decreases stack.len() - i,
{
    if i < 0 || i >= stack.len() {
        Multiset::empty()
    } else {
        frame_names(stack[i]).add(stack_names(stack, i + 1))
    }
}

/// Candidates not yet probed in the frames `stack[i..]`.
spec fn pending_total(stack: Seq<DiscoveryFrame>, i: int) -> nat
    decreases stack.len() - i,
{
    if i < 0 || i >= stack.len() {
        0nat
    } else {
        stack[i].pending@.len() + pending_total(stack, i + 1)
    }
}

/// The `(name, description)` candidates one frame still has to probe.
spec fn frame_pending(f: DiscoveryFrame) -> Seq<(Seq<char>, Seq<char>)> {
    f.pending@.map_values(|c: (String, String)| (c.0@, c.1@))
}

/// All candidates of the frames `stack[..i]`, in probe order: the
/// topmost frame's candidates come first.
spec fn stack_pendings(stack: Seq<DiscoveryFrame>, i: int) -> Seq<(Seq<char>, Seq<char>)>
    decreases i,
{
    if i <= 0 || i > stack.len() {
        Seq::empty()
    } else {
        frame_pending(stack[i - 1]) + stack_pendings(stack, i - 1)
    }
}

/// Two stacks that agree on their first `i` frames hold the same
/// candidates there.
proof fn lemma_stack_pendings_agree(s1: Seq<DiscoveryFrame>, s2: Seq<DiscoveryFrame>, i: int)
    requires
        0 <= i,
        i <= s1.len(),
        i <= s2.len(),
        forall|k: int| 0 <= k < i ==> s1[k] == s2[k],
    ensures
        stack_pendings(s1, i) == stack_pendings(s2, i),
    decreases i,
{
    if i > 0 {
        lemma_stack_pendings_agree(s1, s2, i - 1);
    }
}

/// The candidates whose visitation key is not in the visited set, in
/// probe order.
spec fn fresh_filter(
    cands: Seq<(Seq<char>, Seq<char>)>,
    visited: Seq<Seq<char>>,
    binary: Seq<char>,
) -> Seq<(Seq<char>, Seq<char>)>
    decreases cands.len(),
{
    if cands.len() == 0 {
        Seq::empty()
    } else if !visited.contains(spec_key(binary, cands.first().0)) {
        seq![cands.first()] + fresh_filter(cands.drop_first(), visited, binary)
    } else {
        fresh_filter(cands.drop_first(), visited, binary)
    }
}

/// With nothing visited, every candidate is fresh.
proof fn lemma_fresh_filter_empty_visited(cands: Seq<(Seq<char>, Seq<char>)>, binary: Seq<char>)
    ensures
        fresh_filter(cands, Seq::empty(), binary) == cands,
    decreases cands.len(),
{
    if cands.len() > 0 {
        lemma_fresh_filter_empty_visited(cands.drop_first(), binary);
        assert(cands =~= seq![cands.first()] + cands.drop_first());
    }
}

proof fn lemma_stack_names_push(s: Seq<DiscoveryFrame>, f: DiscoveryFrame, i: int)
    requires
        0 <= i <= s.len(),
    ensures
        stack_names(s.push(f), i) == stack_names(s, i).add(frame_names(f)),
    decreases s.len() - i,
{
    if i == s.len() {
        assert(s.push(f)[i] == f);
        assert(stack_names(s.push(f), i + 1) == Multiset::<Seq<char>>::empty());
        assert(stack_names(s, i) == Multiset::<Seq<char>>::empty());
        assert(frame_names(f).add(Multiset::empty()) =~= Multiset::empty().add(frame_names(f)));
    } else {
        lemma_stack_names_push(s, f, i + 1);
        assert(s.push(f)[i] == s[i]);
        assert(frame_names(s[i]).add(stack_names(s, i + 1).add(frame_names(f)))
            =~= frame_names(s[i]).add(stack_names(s, i + 1)).add(frame_names(f)));
    }
}

proof fn lemma_pending_total_push(s: Seq<DiscoveryFrame>, f: DiscoveryFrame, i: int)
    requires
        0 <= i <= s.len(),
    ensures
        pending_total(s.push(f), i) == pending_total(s, i) + f.pending@.len(),
    decreases s.len() - i,
{
    if i == s.len() {
        assert(s.push(f)[i] == f);
        assert(pending_total(s.push(f), i + 1) == 0);
        assert(pending_total(s, i) == 0);
    } else {
        lemma_pending_total_push(s, f, i + 1);
        assert(s.push(f)[i] == s[i]);
    }
}

proof fn lemma_forest_names_push(subs: Seq<Subcommand>, x: Subcommand, i: int)
    requires
        0 <= i <= subs.len(),
    ensures
        spec_forest_names(subs.push(x), i) == spec_forest_names(subs, i).add(spec_tree_names(x)),
    decreases subs.len() - i,
{
    if i == subs.len() {
        assert(subs.push(x)[i] == x);
        assert(spec_forest_names(subs.push(x), i + 1) == Multiset::<Seq<char>>::empty());
        assert(spec_tree_names(x).add(Multiset::empty()) =~= Multiset::empty().add(
            spec_tree_names(x),
        ));
    } else {
        lemma_forest_names_push(subs, x, i + 1);
        assert(subs.push(x)[i] == subs[i]);
        assert(spec_tree_names(subs[i]).add(spec_forest_names(subs, i + 1).add(spec_tree_names(x)))
            =~= spec_tree_names(subs[i]).add(spec_forest_names(subs, i + 1)).add(
            spec_tree_names(x),
        ));
    }
}

proof fn lemma_forest_wf_push(subs: Seq<Subcommand>, x: Subcommand, i: int, depth: u8, max_depth: u8)
    requires
        0 <= i <= subs.len(),
    ensures
        spec_forest_wf(subs.push(x), i, depth, max_depth) <==> (spec_forest_wf(
            subs,
            i,
            depth,
            max_depth,
        ) && spec_tree_wf(x, depth, max_depth)),
    decreases subs.len() - i,
{
    if i == subs.len() {
        assert(subs.push(x)[i] == x);
        assert(spec_forest_wf(subs.push(x), i + 1, depth, max_depth));
        assert(spec_forest_wf(subs, i, depth, max_depth));
    } else {
        lemma_forest_wf_push(subs, x, i + 1, depth, max_depth);
        assert(subs.push(x)[i] == subs[i]);
    }
}

/// A depth-bounded, cycle-safe walk of one binary's subcommand tree.
///
/// The walk asks for one candidate's help at a time: `next_probe` hands
/// out the candidate name to probe, `provide_help` takes the probe's
/// output — or `None` for a failed probe, which only drops that
/// candidate — and `into_result` returns the finished forest once
/// `next_probe` has answered `None`.
pub struct SubcommandDiscovery {
    binary: String,
    max_depth: u8,
    option_inferrer: OptionInferrer,
    visited: Vec<String>,
    stack: Vec<DiscoveryFrame>,
    current: Option<(String, String)>,
    outcome: Option<Vec<Subcommand>>,
}

impl SubcommandDiscovery {
    /// The walk waits for the help text of one candidate.
    pub closed spec fn awaiting(&self) -> bool {
        self.current is Some
    }

    /// The walk has finished.
    pub closed spec fn done(&self) -> bool {
        self.outcome is Some
    }

    /// The depth bound the walk was started with.
    pub closed spec fn depth_bound(&self) -> u8 {
        self.max_depth
    }

    /// Name of the candidate awaiting its help text.
    pub closed spec fn current_name(&self) -> Seq<char> {
        (self.current->0).0@
    }

    /// The candidates still pending at the walk's current level.
    pub closed spec fn top_pending(&self) -> Seq<(Seq<char>, Seq<char>)> {
        self.stack@.last().pending@.map_values(|c: (String, String)| (c.0@, c.1@))
    }

    /// Every candidate the walk still has to consider, in probe order.
    pub closed spec fn pending_all(&self) -> Seq<(Seq<char>, Seq<char>)> {
        stack_pendings(self.stack@, self.stack@.len() as int)
    }

    /// The pending candidates whose visitation key is still fresh:
    /// exactly the candidates the walk owes a probe for.
    pub closed spec fn fresh_pending(&self) -> Seq<(Seq<char>, Seq<char>)> {
        fresh_filter(self.pending_all(), self.visited.deep_view(), self.binary@)
    }

    /// A probe finished now opens a deeper level rather than closing a
    /// leaf: the walk stands above the deepest allowed level.
    pub closed spec fn can_descend(&self) -> bool {
        self.stack@.len() < self.max_depth as int
    }

    /// Description of the candidate awaiting its help text.
    pub closed spec fn current_desc(&self) -> Seq<char> {
        (self.current->0).1@
    }

    /// The inference engine the walk types options with.
    pub closed spec fn engine_inferrer(&self) -> OptionInferrer {
        self.option_inferrer
    }

    /// All names admitted into the walk so far, with multiplicity: the
    /// nodes of every partial tree, plus the candidate being probed.
    pub closed spec fn names(&self) -> Multiset<Seq<char>> {
        match self.outcome {
            Some(r) => spec_forest_names(r@, 0),
            None => stack_names(self.stack@, 0).add(
                match self.current {
                    Some(c) => Multiset::empty().insert(c.0@),
                    None => Multiset::empty(),
                },
            ),
        }
    }

    /// One frame of the stack is sound: it sits at its index's depth,
    /// strictly below the bound; only the root frame has no waiting
    /// parent; and its finished trees are well-formed at its depth.
    spec fn frame_inv(f: DiscoveryFrame, i: int, max_depth: u8) -> bool {
        &&& f.depth as int == i
        &&& (f.depth as int) < (max_depth as int)
        &&& (i == 0 <==> f.parent is None)
        &&& (f.parent is Some ==> (f.parent->0).depth as int == i - 1)
        &&& spec_forest_wf(f.built@, 0, f.depth, max_depth)
    }

    /// The walk's invariant: every frame is sound, no admitted name
    /// occurs twice, and every admitted name's key is in the visited
    /// set — so a candidate whose key is new cannot repeat a name.
    pub closed spec fn inv(&self) -> bool {
        match self.outcome {
            Some(r) => {
                &&& self.stack@.len() == 0
                &&& self.current is None
                &&& spec_forest_wf(r@, 0, 0, self.max_depth)
                &&& names_distinct(spec_forest_names(r@, 0))
            },
            None => {
                &&& self.stack@.len() >= 1
                &&& forall|i: int|
                    0 <= i < self.stack@.len() ==> Self::frame_inv(
                        #[trigger] self.stack@[i],
                        i,
                        self.max_depth,
                    )
                &&& names_distinct(self.names())
                &&& forall|x: Seq<char>|
                    #[trigger] self.names().count(x) > 0 ==> self.visited.deep_view().contains(
                        spec_key(self.binary@, x),
                    )
            },
        }
    }

    /// The visitation key of a candidate of this walk.
    fn make_key(&self, name: &str) -> (r: String)
        ensures
            r@ == spec_key(self.binary@, name@),
    {
        let mut k = self.binary.clone();
        k.append("-");
        k.append(name);
        proof {
            reveal_strlit("-");
            assert(k@ =~= spec_key(self.binary@, name@));
        }
        k
    }

    /// Whether a key was already visited.
    fn visited_contains(&self, key: &str) -> (r: bool)
        ensures
            r == self.visited.deep_view().contains(key@),
    {
        let n = self.visited.len();
        let mut i: usize = 0;
        loop
            invariant
                i <= n,
                n == self.visited@.len(),
                forall|k: int| 0 <= k < i ==> self.visited.deep_view()[k] != key@,
            ensures
                (i < n && self.visited.deep_view()[i as int] == key@) || (i == n && forall|k: int|
                    0 <= k < i ==> self.visited.deep_view()[k] != key@),
            decreases n - i,
        {
            if i == n {
                break ;
            }
            proof {
                assert(self.visited.deep_view()[i as int] == self.visited@[i as int]@);
            }
            if crate::text::str_eq(self.visited[i].as_str(), key) {
                break ;
            }
            i = i + 1;
        }
        if i < n {
            proof {
                assert(self.visited.deep_view().contains(key@));
            }
            true
        } else {
            proof {
                if self.visited.deep_view().contains(key@) {
                    let w = choose|w: int|
                        0 <= w < self.visited.deep_view().len() && self.visited.deep_view()[w]
                            == key@;
                    assert(self.visited.deep_view()[w] == key@);
                }
            }
            false
        }
    }

    /// The next candidate name to probe, or `None` once the walk is
    /// finished. The walk owes a probe for every pending candidate
    /// whose visitation key is fresh: `Some` hands out the first of
    /// them, in probe order, and `None` comes only when none remains.
    /// A candidate whose key was already visited is skipped silently.
    #[verifier::rlimit(100)]
    pub fn next_probe(&mut self) -> (r: Option<String>)
        requires
            old(self).inv(),
            !old(self).awaiting(),
            !old(self).done(),
        ensures
            final(self).inv(),
            final(self).depth_bound() == old(self).depth_bound(),
            match r {
                Some(name) => {
                    &&& final(self).awaiting()
                    &&& !final(self).done()
                    &&& final(self).current_name() == name@
                    &&& old(self).names().count(name@) == 0
                    &&& final(self).names() == old(self).names().insert(name@)
                    &&& old(self).fresh_pending().len() > 0
                    &&& name@ == old(self).fresh_pending().first().0
                    &&& final(self).current_desc() == old(self).fresh_pending().first().1
                },
                None => {
                    &&& final(self).done()
                    &&& !final(self).awaiting()
                    &&& final(self).names() == old(self).names()
                    &&& old(self).fresh_pending().len() == 0
                },
            },
    {
        let ghost names0 = old(self).names();
        let ghost fresh0 = old(self).fresh_pending();
        loop
            invariant
                self.inv(),
                !self.awaiting(),
                !self.done(),
                self.names() == names0,
                names0 == old(self).names(),
                self.fresh_pending() == fresh0,
                fresh0 == old(self).fresh_pending(),
                self.binary@ == old(self).binary@,
                self.visited.deep_view() == old(self).visited.deep_view(),
                self.max_depth == old(self).max_depth,
            decreases pending_total(self.stack@, 0) + self.stack@.len(),
        {
            let li = self.stack.len() - 1;
            let ghost stack0 = self.stack@;
            if self.stack[li].pending.len() == 0 {
                let top = match self.stack.pop() {
                    Some(f) => f,
                    None => {
                        proof {
                            assert(false);
                        }
                        return None;
                    },
                };
                proof {
                    assert(stack0 =~= self.stack@.push(top));
                    lemma_stack_names_push(self.stack@, top, 0);
                    lemma_pending_total_push(self.stack@, top, 0);
                    assert(Self::frame_inv(top, self.stack@.len() as int, self.max_depth));
                }
                if self.stack.len() == 0 {
                    proof {
                        assert(top.parent is None);
                        assert(frame_names(top) =~= spec_forest_names(top.built@, 0));
                        assert(stack_names(self.stack@, 0) == Multiset::<Seq<char>>::empty());
                        assert(names0 =~= spec_forest_names(top.built@, 0));
                        assert(frame_pending(top) =~= Seq::<(Seq<char>, Seq<char>)>::empty());
                        assert(stack0[0] == top);
                        assert(stack_pendings(stack0, 1) == frame_pending(stack0[0])
                            + stack_pendings(stack0, 0));
                        assert(stack_pendings(stack0, 0) == Seq::<(Seq<char>, Seq<char>)>::empty());
                        assert(stack_pendings(stack0, 1) =~= Seq::<(Seq<char>, Seq<char>)>::empty());
                        assert(fresh_filter(
                            stack_pendings(stack0, 1),
                            self.visited.deep_view(),
                            self.binary@,
                        ) == Seq::<(Seq<char>, Seq<char>)>::empty());
                        assert(fresh0 =~= Seq::<(Seq<char>, Seq<char>)>::empty());
                    }
                    self.outcome = Some(top.built);
                    proof {
                        assert(self.names() =~= names0);
                        assert(self.inv());
                    }
                    return None;
                } else {
                    let DiscoveryFrame { pending: _, depth: top_depth, built, parent } = top;
                    let partial = match parent {
                        Some(p) => p,
                        None => {
                            proof {
                                assert(false);
                            }
                            return None;
                        },
                    };
                    let PartialSubcommand { name, description, options, required_args, depth } =
                        partial;
                    let sub = Subcommand {
                        name,
                        description: Some(description),
                        options,
                        required_args,
                        subcommands: built,
                        depth,
                    };
                    let below = match self.stack.pop() {
                        Some(f) => f,
                        None => {
                            proof {
                                assert(false);
                            }
                            return None;
                        },
                    };
                    let ghost stack1 = self.stack@;
                    let ghost below0 = below;
                    let DiscoveryFrame {
                        pending: bpending,
                        depth: bdepth,
                        built: mut bbuilt,
                        parent: bparent,
                    } = below;
                    proof {
                        assert(stack0.drop_last() =~= stack1.push(below0));
                        lemma_stack_names_push(stack1, below0, 0);
                        lemma_pending_total_push(stack1, below0, 0);
                        assert(Self::frame_inv(below0, stack1.len() as int, self.max_depth));
                        lemma_forest_names_push(below0.built@, sub, 0);
                        lemma_forest_wf_push(below0.built@, sub, 0, below0.depth, self.max_depth);
                        assert(spec_tree_names(sub) =~= frame_names(top));
                        assert(spec_tree_wf(sub, below0.depth, self.max_depth));
                    }
                    bbuilt.push(sub);
                    let renewed = DiscoveryFrame {
                        pending: bpending,
                        depth: bdepth,
                        built: bbuilt,
                        parent: bparent,
                    };
                    let ghost renewed0 = renewed;
                    self.stack.push(renewed);
                    proof {
                        lemma_stack_names_push(stack1, renewed0, 0);
                        lemma_pending_total_push(stack1, renewed0, 0);
                        assert(frame_names(renewed0) =~= frame_names(below0).add(frame_names(top)));
                        assert(stack_names(self.stack@, 0) =~= stack_names(stack0, 0));
                        assert(self.names() =~= names0);
                        assert(Self::frame_inv(renewed0, self.stack@.len() - 1, self.max_depth));
                        assert forall|i: int| 0 <= i < self.stack@.len() implies Self::frame_inv(
                            #[trigger] self.stack@[i],
                            i,
                            self.max_depth,
                        ) by {
                            if i < self.stack@.len() - 1 {
                                assert(self.stack@[i] == stack0[i]);
                            }
                        }
                        let new_len = self.stack@.len() as int;
                        assert(frame_pending(top) =~= Seq::<(Seq<char>, Seq<char>)>::empty());
                        assert(frame_pending(renewed0) == frame_pending(below0));
                        assert(stack0[new_len] == top);
                        assert(stack0[new_len - 1] == below0);
                        assert(self.stack@[new_len - 1] == renewed0);
                        lemma_stack_pendings_agree(self.stack@, stack1, new_len - 1);
                        lemma_stack_pendings_agree(stack0, stack1, new_len - 1);
                        assert(stack_pendings(stack0, new_len + 1) == frame_pending(top)
                            + stack_pendings(stack0, new_len));
                        assert(stack_pendings(stack0, new_len) == frame_pending(below0)
                            + stack_pendings(stack0, new_len - 1));
                        assert(stack_pendings(self.stack@, new_len) == frame_pending(renewed0)
                            + stack_pendings(self.stack@, new_len - 1));
                        assert(stack_pendings(self.stack@, new_len) =~= stack_pendings(
                            stack0,
                            new_len + 1,
                        ));
                        assert(self.fresh_pending() == fresh0);
                    }
                }
            } else {
                let top = match self.stack.pop() {
                    Some(f) => f,
                    None => {
                        proof {
                            assert(false);
                        }
                        return None;
                    },
                };
                let ghost stack1 = self.stack@;
                let ghost top0 = top;
                let DiscoveryFrame { pending: mut tpending, depth: tdepth, built: tbuilt, parent: tparent } =
                    top;
                let cand = tpending.remove(0);
                let renewed = DiscoveryFrame {
                    pending: tpending,
                    depth: tdepth,
                    built: tbuilt,
                    parent: tparent,
                };
                let ghost renewed0 = renewed;
                self.stack.push(renewed);
                proof {
                    assert(stack0 =~= stack1.push(top0));
                    lemma_stack_names_push(stack1, top0, 0);
                    lemma_pending_total_push(stack1, top0, 0);
                    lemma_stack_names_push(stack1, renewed0, 0);
                    lemma_pending_total_push(stack1, renewed0, 0);
                    assert(frame_names(renewed0) =~= frame_names(top0));
                    assert(stack_names(self.stack@, 0) =~= stack_names(stack0, 0));
                    assert(self.names() =~= names0);
                    assert(Self::frame_inv(top0, stack1.len() as int, self.max_depth));
                    assert(Self::frame_inv(renewed0, stack1.len() as int, self.max_depth));
                    assert forall|i: int| 0 <= i < self.stack@.len() implies Self::frame_inv(
                        #[trigger] self.stack@[i],
                        i,
                        self.max_depth,
                    ) by {
                        if i < self.stack@.len() - 1 {
                            assert(self.stack@[i] == stack0[i]);
                        }
                    }
                }
                proof {
                    let new_len = self.stack@.len() as int;
                    let cand_model = (cand.0@, cand.1@);
                    assert(stack0[new_len - 1] == top0);
                    assert(self.stack@[new_len - 1] == renewed0);
                    lemma_stack_pendings_agree(self.stack@, stack1, new_len - 1);
                    lemma_stack_pendings_agree(stack0, stack1, new_len - 1);
                    assert(stack_pendings(stack0, new_len) == frame_pending(top0)
                        + stack_pendings(stack0, new_len - 1));
                    assert(stack_pendings(self.stack@, new_len) == frame_pending(renewed0)
                        + stack_pendings(self.stack@, new_len - 1));
                    assert(renewed0.pending@ =~= top0.pending@.drop_first());
                    assert(frame_pending(renewed0) =~= frame_pending(top0).drop_first());
                    assert(frame_pending(top0).len() > 0);
                    assert(frame_pending(top0).first() == cand_model);
                    assert(stack_pendings(stack0, new_len) =~= seq![cand_model] + stack_pendings(
                        self.stack@,
                        new_len,
                    ));
                }
                let key = self.make_key(cand.0.as_str());
                if self.visited_contains(key.as_str()) {
                    proof {
                        let pre_pending = stack_pendings(stack0, stack0.len() as int);
                        let new_pending = self.pending_all();
                        assert(pre_pending.len() > 0);
                        assert(pre_pending.first() == (cand.0@, cand.1@));
                        assert(pre_pending.drop_first() =~= new_pending);
                        assert(fresh_filter(pre_pending, self.visited.deep_view(), self.binary@)
                            == fresh_filter(new_pending, self.visited.deep_view(), self.binary@));
                        assert(self.fresh_pending() == fresh0);
                    }
                    continue ;
                }
                proof {
                    let pre_pending = stack_pendings(stack0, stack0.len() as int);
                    let new_pending = self.pending_all();
                    assert(pre_pending.len() > 0);
                    assert(pre_pending.first() == (cand.0@, cand.1@));
                    assert(pre_pending.drop_first() =~= new_pending);
                    assert(fresh_filter(pre_pending, self.visited.deep_view(), self.binary@)
                        == seq![(cand.0@, cand.1@)] + fresh_filter(
                        new_pending,
                        self.visited.deep_view(),
                        self.binary@,
                    ));
                    assert(fresh0.len() > 0);
                    assert(fresh0.first() == (cand.0@, cand.1@));
                }
                let name_out = cand.0.clone();
                proof {
                    if names0.count(cand.0@) > 0 {
                        assert(self.visited.deep_view().contains(spec_key(self.binary@, cand.0@)));
                    }
                }
                let ghost pre_visited = self.visited.deep_view();
                proof {
                    assert(names0.count(cand.0@) == 0) by {
                        if names0.count(cand.0@) > 0 {
                            assert(pre_visited.contains(spec_key(self.binary@, cand.0@)));
                        }
                    }
                }
                self.visited.push(key);
                proof {
                    assert forall|k: int|
                        0 <= k < self.visited@.len() implies #[trigger] self.visited.deep_view()[k]
                        == (if k < pre_visited.len() {
                        pre_visited[k]
                    } else {
                        spec_key(self.binary@, cand.0@)
                    }) by {
                        assert(self.visited.deep_view()[k] == self.visited@[k]@);
                    }
                    assert(self.visited.deep_view() =~= pre_visited.push(
                        spec_key(self.binary@, cand.0@),
                    ));
                }
                self.current = Some(cand);
                proof {
                    let admitted = (self.current->0).0@;
                    let names1 = self.names();
                    assert(names1 =~= names0.insert(admitted));
                    assert(names_distinct(names1)) by {
                        assert forall|x: Seq<char>| #[trigger] names1.count(x) <= 1 by {
                            if x == admitted {
                                assert(names1.count(x) == names0.count(x) + 1);
                            } else {
                                assert(names1.count(x) == names0.count(x));
                            }
                        }
                    }
                    assert forall|x: Seq<char>| #[trigger] names1.count(x) > 0 implies self
                        .visited
                        .deep_view()
                        .contains(spec_key(self.binary@, x)) by {
                        if x == admitted {
                            assert(self.visited.deep_view().last() == spec_key(self.binary@, x));
                        } else {
                            assert(names0.count(x) > 0);
                            assert(pre_visited.contains(spec_key(self.binary@, x)));
                            let w = choose|w: int|
                                0 <= w < pre_visited.len() && pre_visited[w] == spec_key(
                                    self.binary@,
                                    x,
                                );
                            assert(self.visited.deep_view()[w] == spec_key(self.binary@, x));
                        }
                    }
                    assert(self.inv());
                }
                return Some(name_out);
            }
        }
    }

    /// The node one finished probe contributes, read off the help
    /// text: the candidate's name and description, its options parsed
    /// and typed by the walk's inference engine, and its required
    /// arguments from the output's usage line.
    pub open spec fn node_from_help(
        sub: Subcommand,
        name: Seq<char>,
        desc: Seq<char>,
        help: Seq<char>,
        inf: OptionInferrer,
    ) -> bool {
        &&& sub.name@ == name
        &&& (sub.description matches Some(d) && d@ == desc)
        &&& sub.options@.map_values(|o: CliOption| o@)
            == crate::analyzer::option_inferrer::spec_typed_options(
            inf,
            crate::analyzer::cli_parser::spec_parse_options(help),
        )
        &&& sub.required_args@.map_values(|a: String| a@)
            == crate::analyzer::cli_parser::spec_required_args(help)
    }

    /// The step a probe at the deepest allowed level takes: the top
    /// level gains exactly one leaf built from the help text.
    pub closed spec fn leaf_step(pre: Self, post: Self, help: Seq<char>) -> bool {
        &&& pre.stack@.len() >= 1
        &&& post.stack@.len() == pre.stack@.len()
        &&& post.stack@.drop_last() == pre.stack@.drop_last()
        &&& post.stack@.last().pending == pre.stack@.last().pending
        &&& post.stack@.last().depth == pre.stack@.last().depth
        &&& post.stack@.last().parent == pre.stack@.last().parent
        &&& post.stack@.last().built@.len() == pre.stack@.last().built@.len() + 1
        &&& post.stack@.last().built@.drop_last() == pre.stack@.last().built@
        &&& Self::node_from_help(
            post.stack@.last().built@.last(),
            pre.current_name(),
            pre.current_desc(),
            help,
            pre.engine_inferrer(),
        )
        &&& post.stack@.last().built@.last().subcommands@.len() == 0
        &&& post.stack@.last().built@.last().depth == pre.stack@.last().depth
    }

    /// The step a probe above the deepest level takes: a new level
    /// opens for the candidate, pending exactly the candidates its help
    /// text lists, with the node itself waiting for its children.
    pub closed spec fn descend_step(pre: Self, post: Self, help: Seq<char>) -> bool {
        &&& post.stack@.len() == pre.stack@.len() + 1
        &&& post.stack@.drop_last() == pre.stack@
        &&& post.stack@.last().pending@.map_values(|c: (String, String)| (c.0@, c.1@))
            == spec_parse_subcommands(help)
        &&& post.stack@.last().built@.len() == 0
        &&& (post.stack@.last().parent matches Some(p) && {
            &&& p.name@ == pre.current_name()
            &&& p.description@ == pre.current_desc()
            &&& p.options@.map_values(|o: CliOption| o@)
                == crate::analyzer::option_inferrer::spec_typed_options(
                pre.engine_inferrer(),
                crate::analyzer::cli_parser::spec_parse_options(help),
            )
            &&& p.required_args@.map_values(|a: String| a@)
                == crate::analyzer::cli_parser::spec_required_args(help)
        })
    }

    /// Takes the probe output for the awaited candidate. `None` — a
    /// failed or empty probe — drops the candidate and nothing else.
    /// Above the deepest allowed level, output opens a new level whose
    /// pending candidates are exactly the output's own subcommand
    /// listing; at the deepest level the candidate becomes a leaf and
    /// no other pending candidate is touched. Either way the node's
    /// options are parsed from the output and typed by the walk's
    /// inference engine, and its required arguments come from the
    /// output's usage line.
    pub fn provide_help(&mut self, help: Option<&str>)
        requires
            old(self).inv(),
            old(self).awaiting(),
        ensures
            final(self).inv(),
            !final(self).awaiting(),
            !final(self).done(),
            final(self).depth_bound() == old(self).depth_bound(),
            match help {
                Some(_) => final(self).names() == old(self).names(),
                None => final(self).names() == old(self).names().remove(old(self).current_name()),
            },
            help is None ==> final(self).pending_all() == old(self).pending_all(),
            help matches Some(h) ==> ({
                &&& (old(self).can_descend() ==> (Self::descend_step(*old(self), *final(self), h@)
                    && final(self).pending_all() == spec_parse_subcommands(h@) + old(
                    self,
                ).pending_all()))
                &&& (!old(self).can_descend() ==> (Self::leaf_step(*old(self), *final(self), h@)
                    && final(self).pending_all() == old(self).pending_all()))
            }),
    {
        let ghost names0 = old(self).names();
        let cand = match self.current.take() {
            Some(c) => c,
            None => {
                proof {
                    assert(false);
                }
                return ;
            },
        };
        proof {
            assert(self.names() =~= names0.remove(cand.0@));
        }
        let h = match help {
            None => {
                return ;
            },
            Some(h) => h,
        };
        let (name, description) = cand;
        let parser = CliParser::new();
        let mut options = parser.parse_options(h);
        let ghost parsed_models = options@.map_values(|o: CliOption| o@);
        self.option_inferrer.infer_types(&mut options);
        proof {
            let inf = self.option_inferrer;
            let typed = crate::analyzer::option_inferrer::spec_typed_options(
                inf,
                crate::analyzer::cli_parser::spec_parse_options(h@),
            );
            assert forall|j: int| 0 <= j < options@.len() implies #[trigger] options@[j]@
                == typed[j] by {
                assert(parsed_models[j] == crate::analyzer::cli_parser::spec_parse_options(h@)[j]);
            }
            assert(options@.map_values(|o: CliOption| o@) =~= typed);
        }
        let required_args = parser.parse_required_args(h);
        let li = self.stack.len() - 1;
        let top_depth = self.stack[li].depth;
        proof {
            assert(Self::frame_inv(self.stack@[li as int], li as int, self.max_depth));
            assert(self.max_depth >= 1);
            assert(self.stack@ == old(self).stack@);
        }
        let ghost stack0 = self.stack@;
        if top_depth < self.max_depth - 1 {
            proof {
                assert(old(self).can_descend());
            }
            let pending = subcommand_candidates(h);
            let fresh = DiscoveryFrame {
                pending,
                depth: top_depth + 1,
                built: Vec::new(),
                parent: Some(
                    PartialSubcommand { name, description, options, required_args, depth: top_depth },
                ),
            };
            let ghost fresh0 = fresh;
            self.stack.push(fresh);
            proof {
                lemma_stack_names_push(stack0, fresh0, 0);
                assert(frame_names(fresh0) =~= Multiset::empty().insert((fresh0.parent->0).name@));
                assert(self.names() =~= names0);
                assert(spec_forest_wf(fresh0.built@, 0, fresh0.depth, self.max_depth));
                assert(Self::frame_inv(fresh0, self.stack@.len() - 1, self.max_depth));
                assert forall|i: int| 0 <= i < self.stack@.len() implies Self::frame_inv(
                    #[trigger] self.stack@[i],
                    i,
                    self.max_depth,
                ) by {
                    if i < self.stack@.len() - 1 {
                        assert(self.stack@[i] == stack0[i]);
                    }
                }
                assert(self.stack@.drop_last() =~= stack0);
                assert(Self::descend_step(*old(self), *self, h@));
                let new_len = self.stack@.len() as int;
                assert(self.stack@[new_len - 1] == fresh0);
                lemma_stack_pendings_agree(self.stack@, stack0, new_len - 1);
                assert(stack_pendings(self.stack@, new_len) == frame_pending(fresh0)
                    + stack_pendings(self.stack@, new_len - 1));
                assert(frame_pending(fresh0) == spec_parse_subcommands(h@));
                assert(self.pending_all() =~= spec_parse_subcommands(h@) + stack_pendings(
                    stack0,
                    new_len - 1,
                ));
            }
        } else {
            proof {
                assert(!old(self).can_descend());
            }
            let top = match self.stack.pop() {
                Some(f) => f,
                None => {
                    proof {
                        assert(false);
                    }
                    return ;
                },
            };
            let ghost stack1 = self.stack@;
            let ghost top0 = top;
            let DiscoveryFrame { pending: tpending, depth: tdepth, built: mut tbuilt, parent: tparent } =
                top;
            let leaf = Subcommand {
                name,
                description: Some(description),
                options,
                required_args,
                subcommands: Vec::new(),
                depth: tdepth,
            };
            let ghost leaf0 = leaf;
            proof {
                assert(stack0 =~= stack1.push(top0));
                lemma_stack_names_push(stack1, top0, 0);
                assert(Self::frame_inv(top0, stack1.len() as int, self.max_depth));
                lemma_forest_names_push(top0.built@, leaf0, 0);
                lemma_forest_wf_push(top0.built@, leaf0, 0, top0.depth, self.max_depth);
                assert(spec_forest_names(leaf0.subcommands@, 0) == Multiset::<Seq<char>>::empty());
                assert(spec_tree_names(leaf0) =~= Multiset::empty().insert(leaf0.name@));
                assert(spec_forest_wf(leaf0.subcommands@, 0, (top0.depth + 1) as u8, self.max_depth));
                assert(spec_tree_wf(leaf0, top0.depth, self.max_depth));
            }
            tbuilt.push(leaf);
            let renewed = DiscoveryFrame {
                pending: tpending,
                depth: tdepth,
                built: tbuilt,
                parent: tparent,
            };
            let ghost renewed0 = renewed;
            self.stack.push(renewed);
            proof {
                lemma_stack_names_push(stack1, renewed0, 0);
                assert(frame_names(renewed0) =~= frame_names(top0).insert(leaf0.name@));
                assert(stack_names(self.stack@, 0) =~= stack_names(stack0, 0).insert(leaf0.name@));
                assert(self.names() =~= names0);
                assert(Self::frame_inv(renewed0, self.stack@.len() - 1, self.max_depth));
                assert forall|i: int| 0 <= i < self.stack@.len() implies Self::frame_inv(
                    #[trigger] self.stack@[i],
                    i,
                    self.max_depth,
                ) by {
                    if i < self.stack@.len() - 1 {
                        assert(self.stack@[i] == stack0[i]);
                    }
                }
                assert(self.stack@.last().built@.drop_last() =~= top0.built@);
                assert(self.stack@.drop_last() =~= stack0.drop_last());
                assert(Self::leaf_step(*old(self), *self, h@));
                let new_len = self.stack@.len() as int;
                assert(stack0[new_len - 1] == top0);
                assert(self.stack@[new_len - 1] == renewed0);
                assert(frame_pending(renewed0) == frame_pending(top0));
                lemma_stack_pendings_agree(self.stack@, stack1, new_len - 1);
                lemma_stack_pendings_agree(stack0, stack1, new_len - 1);
                assert(stack_pendings(self.stack@, new_len) == frame_pending(renewed0)
                    + stack_pendings(self.stack@, new_len - 1));
                assert(stack_pendings(stack0, new_len) == frame_pending(top0) + stack_pendings(
                    stack0,
                    new_len - 1,
                ));
                assert(self.pending_all() =~= stack_pendings(stack0, new_len));
            }
        }
    }

    /// The finished forest. Every tree is well-formed at depth 0 under
    /// the walk's depth bound — no node's depth reaches the bound — and
    /// no two nodes of the whole forest share a name, hence none share
    /// a visitation key.
    pub fn into_result(self) -> (r: Vec<Subcommand>)
        requires
            self.inv(),
            self.done(),
        ensures
            spec_forest_wf(r@, 0, 0, self.depth_bound()),
            names_distinct(spec_forest_names(r@, 0)),
            spec_forest_names(r@, 0) == self.names(),
    {
        match self.outcome {
            Some(r) => r,
            None => {
                proof {
                    assert(false);
                }
                Vec::new()
            },
        }
    }
}

impl SubcommandDetector {
    /// Starts the discovery walk for one binary from its top-level help
    /// text, consuming the detector. With a zero depth bound the walk is
    /// finished at once, with an empty forest.
    pub fn start_discovery(self, binary: &str, help_output: &str) -> (r: SubcommandDiscovery)
        ensures
            r.inv(),
            !r.awaiting(),
            r.depth_bound() == self.max_depth,
            self.max_depth == 0 ==> r.done() && r.names() == Multiset::<Seq<char>>::empty(),
            self.max_depth != 0 ==> {
                &&& !r.done()
                &&& r.names() == Multiset::<Seq<char>>::empty()
                &&& r.top_pending() == spec_parse_subcommands(help_output@)
                &&& r.fresh_pending() == spec_parse_subcommands(help_output@)
                &&& r.engine_inferrer() == self.option_inferrer
            },
    {
        if self.max_depth == 0 {
            let empty: Vec<Subcommand> = Vec::new();
            let r = SubcommandDiscovery {
                binary: binary.to_owned(),
                max_depth: self.max_depth,
                option_inferrer: self.option_inferrer,
                visited: Vec::new(),
                stack: Vec::new(),
                current: None,
                outcome: Some(empty),
            };
            proof {
                assert(r.outcome->0@.len() == 0);
                assert(names_distinct(spec_forest_names(r.outcome->0@, 0)));
            }
            r
        } else {
            let pending = subcommand_candidates(help_output);
            let root = DiscoveryFrame { pending, depth: 0, built: Vec::new(), parent: None };
            let ghost root0 = root;
            let mut stack: Vec<DiscoveryFrame> = Vec::new();
            stack.push(root);
            let r = SubcommandDiscovery {
                binary: binary.to_owned(),
                max_depth: self.max_depth,
                option_inferrer: self.option_inferrer,
                visited: Vec::new(),
                stack,
                current: None,
                outcome: None,
            };
            proof {
                assert(r.stack@ =~= Seq::empty().push(root0));
                lemma_stack_names_push(Seq::empty(), root0, 0);
                assert(stack_names(Seq::empty(), 0) == Multiset::<Seq<char>>::empty());
                assert(frame_names(root0) =~= Multiset::<Seq<char>>::empty());
                assert(r.names() =~= Multiset::<Seq<char>>::empty());
                assert(SubcommandDiscovery::frame_inv(root0, 0, self.max_depth));
                assert(r.inv());
                assert(r.stack@[0] == root0);
                assert(stack_pendings(r.stack@, 1) == frame_pending(root0) + stack_pendings(
                    r.stack@,
                    0,
                ));
                assert(r.pending_all() =~= frame_pending(root0));
                assert(r.visited.deep_view() =~= Seq::<Seq<char>>::empty());
                lemma_fresh_filter_empty_visited(r.pending_all(), r.binary@);
            }
            r
        }
    }
}

} // verus!
