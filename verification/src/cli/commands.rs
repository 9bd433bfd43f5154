//! Report formats, test category selection, and the edit-distance
//! suggestions offered for a mistyped category name.

use vstd::prelude::*;
use crate::error::CliTestError;
use crate::text::{scan_until, skip_until, spec_lower, spec_trim, substring, trim_str};
use crate::types::test_case::TestCategory;

verus! {

/// The output formats a report can be written in.
#[derive(Debug, Clone, Copy, PartialEq, Eq, Structural)]
pub enum ReportFormat {
    /// Markdown.
    Markdown,
    /// JSON.
    Json,
    /// HTML.
    Html,
    /// JUnit XML.
    Junit,
    /// Every format at once.
    All,
}

impl ReportFormat {
    /// File extension of the format.
    pub fn extension(&self) -> (r: &'static str)
        ensures
            *self == ReportFormat::Markdown ==> r@ == "md"@,
            *self == ReportFormat::Json ==> r@ == "json"@,
            *self == ReportFormat::Html ==> r@ == "html"@,
            *self == ReportFormat::Junit ==> r@ == "xml"@,
            *self == ReportFormat::All ==> r@ == "all"@,
    {
        match self {
            ReportFormat::Markdown => "md",
            ReportFormat::Json => "json",
            ReportFormat::Html => "html",
            ReportFormat::Junit => "xml",
            ReportFormat::All => "all",
        }
    }
}

// ---------------------------------------------------------------------------
// Edit distance and suggestions
// ---------------------------------------------------------------------------

/// The smaller of two numbers.
pub open spec fn spec_min(x: int, y: int) -> int {
    if x <= y {
        x
    } else {
        y
    }
}

/// The Levenshtein distance: fewest single-character insertions,
/// deletions and substitutions that turn one string into the other.
pub open spec fn spec_levenshtein(a: Seq<char>, b: Seq<char>) -> int
    decreases a.len(), b.len(),
{
    if a.len() == 0 {
        b.len() as int
    } else if b.len() == 0 {
        a.len() as int
    } else {
        let cost: int = if a.last() == b.last() {
            0
        } else {
            1
        };
        spec_min(
            spec_min(
                spec_levenshtein(a.drop_last(), b) + 1,
                spec_levenshtein(a, b.drop_last()) + 1,
            ),
            spec_levenshtein(a.drop_last(), b.drop_last()) + cost,
        )
    }
}

/// The distance never exceeds the longer length.
pub proof fn lemma_levenshtein_bounds(a: Seq<char>, b: Seq<char>)
    ensures
        0 <= spec_levenshtein(a, b),
        spec_levenshtein(a, b) <= spec_min(a.len() as int, b.len() as int) + (if a.len() >= b.len() {
            a.len() - b.len()
        } else {
            b.len() - a.len()
        }),
        spec_levenshtein(a, b) <= a.len() + b.len(),
    decreases a.len(), b.len(),
{
    if a.len() == 0 || b.len() == 0 {
    } else {
        lemma_levenshtein_bounds(a.drop_last(), b);
        lemma_levenshtein_bounds(a, b.drop_last());
        lemma_levenshtein_bounds(a.drop_last(), b.drop_last());
    }
}

fn min_usize(x: usize, y: usize) -> (r: usize)
    ensures
        r as int == spec_min(x as int, y as int),
{
    if x <= y {
        x
    } else {
        y
    }
}

/// Computes the Levenshtein distance between two strings, by the
/// classic two-row dynamic program.
pub fn levenshtein_distance(s1: &str, s2: &str) -> (r: usize)
    requires
        s1@.len() < usize::MAX,
        s2@.len() < usize::MAX,
    ensures
        r as int == spec_levenshtein(s1@, s2@),
{
    let len1 = s1.unicode_len();
    let len2 = s2.unicode_len();
    if len1 == 0 {
        return len2;
    }
    if len2 == 0 {
        return len1;
    }
    let mut prev_row: Vec<usize> = Vec::new();
    let mut j: usize = 0;
    while j <= len2
        invariant
            j <= len2 + 1,
            len2 == s2@.len(),
            len2 < usize::MAX,
            prev_row@.len() == j,
            forall|q: int|
                0 <= q < j ==> #[trigger] prev_row@[q] as int == spec_levenshtein(
                    s1@.take(0),
                    s2@.take(q),
                ),
        decreases len2 + 1 - j,
    {
        proof {
            assert(s1@.take(0) =~= Seq::<char>::empty());
            assert(s2@.take(j as int).len() == j);
        }
        prev_row.push(j);
        j = j + 1;
    }
    let mut i: usize = 1;
    while i <= len1
        invariant
            1 <= i <= len1 + 1,
            len1 == s1@.len(),
            len2 == s2@.len(),
            len1 < usize::MAX,
            len2 < usize::MAX,
            len1 > 0,
            len2 > 0,
            prev_row@.len() == len2 + 1,
            forall|q: int|
                0 <= q <= len2 ==> #[trigger] prev_row@[q] as int == spec_levenshtein(
                    s1@.take(i - 1),
                    s2@.take(q),
                ),
        decreases len1 + 1 - i,
    {
        let mut curr_row: Vec<usize> = Vec::new();
        curr_row.push(i);
        proof {
            assert(s2@.take(0) =~= Seq::<char>::empty());
            assert(s1@.take(i as int).len() == i);
            assert(curr_row@[0] as int == spec_levenshtein(s1@.take(i as int), s2@.take(0)));
        }
        let mut j: usize = 1;
        while j <= len2
            invariant
                1 <= i <= len1,
                1 <= j <= len2 + 1,
                len1 == s1@.len(),
                len2 == s2@.len(),
                len1 < usize::MAX,
                len2 < usize::MAX,
                prev_row@.len() == len2 + 1,
                curr_row@.len() == j,
                forall|q: int|
                    0 <= q <= len2 ==> #[trigger] prev_row@[q] as int == spec_levenshtein(
                        s1@.take(i - 1),
                        s2@.take(q),
                    ),
                forall|q: int|
                    0 <= q < j ==> #[trigger] curr_row@[q] as int == spec_levenshtein(
                        s1@.take(i as int),
                        s2@.take(q),
                    ),
            decreases len2 + 1 - j,
        {
            let cost: usize = if s1.get_char(i - 1) == s2.get_char(j - 1) {
                0
            } else {
                1
            };
            proof {
                lemma_levenshtein_bounds(s1@.take(i - 1), s2@.take(j as int));
                lemma_levenshtein_bounds(s1@.take(i as int), s2@.take(j - 1));
                lemma_levenshtein_bounds(s1@.take(i - 1), s2@.take(j - 1));
            }
            let deletion = prev_row[j] + 1;
            let insertion = curr_row[j - 1] + 1;
            let substitution = prev_row[j - 1] + cost;
            let best = min_usize(min_usize(deletion, insertion), substitution);
            proof {
                let a = s1@.take(i as int);
                let b = s2@.take(j as int);
                assert(a.len() == i && b.len() == j);
                assert(a.last() == s1@[i - 1] && b.last() == s2@[j - 1]);
                assert(a.drop_last() =~= s1@.take(i - 1));
                assert(b.drop_last() =~= s2@.take(j - 1));
                assert(best as int == spec_levenshtein(a, b));
            }
            curr_row.push(best);
            j = j + 1;
        }
        prev_row = curr_row;
        i = i + 1;
    }
    proof {
        assert(s1@.take(len1 as int) =~= s1@);
        assert(s2@.take(len2 as int) =~= s2@);
    }
    prev_row[len2]
}

/// The candidates at one distance from the input, in their given order.
pub open spec fn spec_at_distance(input: Seq<char>, cands: Seq<Seq<char>>, d: int) -> Seq<
    Seq<char>,
> {
    cands.filter(|c: Seq<char>| spec_levenshtein(input, c) == d)
}

/// The closest candidates: those at distance up to 3, nearest first and
/// otherwise in their given order, cut to `max_results`.
pub open spec fn spec_closest_matches(
    input: Seq<char>,
    cands: Seq<Seq<char>>,
    max_results: int,
) -> Seq<Seq<char>> {
    let ranked = spec_at_distance(input, cands, 0) + spec_at_distance(input, cands, 1)
        + spec_at_distance(input, cands, 2) + spec_at_distance(input, cands, 3);
    if ranked.len() <= max_results {
        ranked
    } else {
        ranked.take(max_results)
    }
}

/// Collects the candidates at exactly the given distance.
fn matches_at_distance(input: &str, candidates: &Vec<&str>, d: usize) -> (r: Vec<String>)
    requires
        input@.len() < usize::MAX,
        forall|k: int| 0 <= k < candidates@.len() ==> (#[trigger] candidates@[k])@.len() < usize::MAX,
    ensures
        r@.map_values(|s: String| s@) == spec_at_distance(input@, candidates.deep_view(), d as int),
{
    let ghost cview = candidates.deep_view();
    let ghost pred = |c: Seq<char>| spec_levenshtein(input@, c) == d as int;
    let n = candidates.len();
    let mut r: Vec<String> = Vec::new();
    let mut i: usize = 0;
    proof {
        assert(cview.take(0) =~= Seq::<Seq<char>>::empty());
        assert(r@.map_values(|s: String| s@) =~= cview.take(0).filter(pred));
        reveal(Seq::filter);
    }
    while i < n
        invariant
            i <= n,
            n == candidates@.len(),
            cview == candidates.deep_view(),
            pred == (|c: Seq<char>| spec_levenshtein(input@, c) == d as int),
            input@.len() < usize::MAX,
            forall|k: int|
                0 <= k < candidates@.len() ==> (#[trigger] candidates@[k])@.len() < usize::MAX,
            r@.map_values(|s: String| s@) == cview.take(i as int).filter(pred),
        decreases n - i,
    {
        let ghost acc_before = r@.map_values(|s: String| s@);
        proof {
            assert(cview[i as int] == candidates@[i as int]@);
        }
        let dist = levenshtein_distance(input, candidates[i]);
        if dist == d {
            r.push(candidates[i].to_owned());
            proof {
                assert(r@.map_values(|s: String| s@) =~= acc_before.push(cview[i as int]));
            }
        }
        proof {
            let taken = cview.take(i as int);
            assert(cview.take(i + 1).drop_last() =~= taken);
            assert(cview.take(i + 1).last() == cview[i as int]);
            assert(cview.take(i + 1).filter(pred) == (if pred(cview[i as int]) {
                taken.filter(pred).push(cview[i as int])
            } else {
                taken.filter(pred)
            })) by {
                reveal(Seq::filter);
            }
            assert(r@.map_values(|s: String| s@) =~= cview.take(i + 1).filter(pred));
        }
        i = i + 1;
    }
    proof {
        assert(cview.take(n as int) =~= cview);
    }
    r
}

/// The candidates closest to a mistyped input: edit distance at most 3,
/// nearest first, at most `max_results` of them.
pub fn find_closest_matches(input: &str, candidates: &Vec<&str>, max_results: usize) -> (r: Vec<
    String,
>)
    requires
        input@.len() < usize::MAX,
        forall|k: int| 0 <= k < candidates@.len() ==> (#[trigger] candidates@[k])@.len() < usize::MAX,
    ensures
        r@.map_values(|s: String| s@) == spec_closest_matches(
            input@,
            candidates.deep_view(),
            max_results as int,
        ),
{
    let mut ranked = matches_at_distance(input, candidates, 0);
    let mut d1 = matches_at_distance(input, candidates, 1);
    let mut d2 = matches_at_distance(input, candidates, 2);
    let mut d3 = matches_at_distance(input, candidates, 3);
    let ghost r0 = ranked@.map_values(|s: String| s@);
    let ghost r1 = d1@.map_values(|s: String| s@);
    let ghost r2 = d2@.map_values(|s: String| s@);
    let ghost r3 = d3@.map_values(|s: String| s@);
    ranked.append(&mut d1);
    ranked.append(&mut d2);
    ranked.append(&mut d3);
    proof {
        assert(ranked@.map_values(|s: String| s@) =~= r0 + r1 + r2 + r3);
    }
    let ghost whole = ranked@.map_values(|s: String| s@);
    if ranked.len() > max_results {
        ranked.truncate(max_results);
        proof {
            assert(ranked@.map_values(|s: String| s@) =~= whole.take(max_results as int));
        }
    }
    ranked
}

// ---------------------------------------------------------------------------
// Category selection
// ---------------------------------------------------------------------------

/// The category a name denotes, ignoring case; the hyphen-free spelling
/// of each two-word name is accepted too.
pub open spec fn spec_category_of(s: Seq<char>) -> Option<TestCategory> {
    let t = spec_lower(s);
    if t == "basic"@ {
        Some(TestCategory::Basic)
    } else if t == "help"@ {
        Some(TestCategory::Help)
    } else if t == "security"@ {
        Some(TestCategory::Security)
    } else if t == "path"@ {
        Some(TestCategory::Path)
    } else if t == "multi-shell"@ || t == "multishell"@ {
        Some(TestCategory::MultiShell)
    } else if t == "input-validation"@ || t == "inputvalidation"@ {
        Some(TestCategory::InputValidation)
    } else if t == "destructive-ops"@ || t == "destructiveops"@ {
        Some(TestCategory::DestructiveOps)
    } else if t == "directory-traversal"@ || t == "directorytraversal"@ {
        Some(TestCategory::DirectoryTraversal)
    } else if t == "performance"@ {
        Some(TestCategory::Performance)
    } else {
        None
    }
}

/// Reads one category name.
pub fn category_of_name(s: &str) -> (r: Option<TestCategory>)
    ensures
        r == spec_category_of(s@),
{
    let lowered = crate::text::lowercase_str(s);
    let t = lowered.as_str();
    if crate::text::str_eq(t, "basic") {
        Some(TestCategory::Basic)
    } else if crate::text::str_eq(t, "help") {
        Some(TestCategory::Help)
    } else if crate::text::str_eq(t, "security") {
        Some(TestCategory::Security)
    } else if crate::text::str_eq(t, "path") {
        Some(TestCategory::Path)
    } else if crate::text::str_eq(t, "multi-shell") || crate::text::str_eq(t, "multishell") {
        Some(TestCategory::MultiShell)
    } else if crate::text::str_eq(t, "input-validation") || crate::text::str_eq(
        t,
        "inputvalidation",
    ) {
        Some(TestCategory::InputValidation)
    } else if crate::text::str_eq(t, "destructive-ops") || crate::text::str_eq(t, "destructiveops") {
        Some(TestCategory::DestructiveOps)
    } else if crate::text::str_eq(t, "directory-traversal") || crate::text::str_eq(
        t,
        "directorytraversal",
    ) {
        Some(TestCategory::DirectoryTraversal)
    } else if crate::text::str_eq(t, "performance") {
        Some(TestCategory::Performance)
    } else {
        None
    }
}

/// The comma-separated pieces of a category list, kept verbatim.
pub open spec fn spec_comma_pieces(s: Seq<char>, i: int) -> Seq<Seq<char>>
    decreases s.len() - i,
    via spec_comma_pieces_dec
{
    if i < 0 || i > s.len() {
        Seq::empty()
    } else {
        let j = scan_until(s, i, ',');
        if j >= s.len() {
            seq![s.subrange(i, s.len() as int)]
        } else {
            seq![s.subrange(i, j)] + spec_comma_pieces(s, j + 1)
        }
    }
}

#[via_fn]
proof fn spec_comma_pieces_dec(s: Seq<char>, i: int) {
    if 0 <= i && i <= s.len() {
        crate::text::lemma_scan_until(s, i, ',');
    }
}

/// The categories a comma-separated selection names, in order: blank
/// pieces are skipped, every other piece must name a category, and
/// resource-intensive categories are dropped unless asked for. `None`
/// when some piece names no category.
pub open spec fn spec_selected_categories(
    pieces: Seq<Seq<char>>,
    i: int,
    include_intensive: bool,
    acc: Seq<TestCategory>,
) -> Option<Seq<TestCategory>>
    decreases pieces.len() - i,
{
    if i < 0 || i >= pieces.len() {
        Some(acc)
    } else {
        let t = spec_trim(pieces[i]);
        if t.len() == 0 {
            spec_selected_categories(pieces, i + 1, include_intensive, acc)
        } else {
            match spec_category_of(t) {
                None => None,
                Some(c) => if !include_intensive && c == TestCategory::DirectoryTraversal {
                    spec_selected_categories(pieces, i + 1, include_intensive, acc)
                } else {
                    spec_selected_categories(pieces, i + 1, include_intensive, acc.push(c))
                },
            }
        }
    }
}

/// Reads a comma-separated category selection. `all` selects every
/// category, or the default set without the resource-intensive ones
/// unless they are asked for; otherwise each piece must name a
/// category, and a piece that names none is a configuration error
/// suggesting the closest spellings.
pub fn parse_categories(categories_str: &str, include_intensive: bool) -> (r: Result<
    Vec<TestCategory>,
    CliTestError,
>)
    ensures
        spec_lower(spec_trim(categories_str@)) == "all"@ && include_intensive ==> r is Ok
            && r->Ok_0@ == TestCategory::all_spec(),
        spec_lower(spec_trim(categories_str@)) == "all"@ && !include_intensive ==> r is Ok
            && r->Ok_0@ == TestCategory::default_spec(),
        spec_lower(spec_trim(categories_str@)) != "all"@ ==> (match spec_selected_categories(
            spec_comma_pieces(categories_str@, 0),
            0,
            include_intensive,
            Seq::empty(),
        ) {
            Some(cats) => r is Ok && r->Ok_0@ == cats,
            None => r is Err && r->Err_0 is Config,
        }),
{
    let trimmed = trim_str(categories_str);
    let lowered = crate::text::lowercase_str(trimmed.as_str());
    if crate::text::str_eq(lowered.as_str(), "all") {
        if include_intensive {
            return Ok(TestCategory::all());
        } else {
            return Ok(TestCategory::default());
        }
    }
    let pieces = comma_pieces(categories_str, 0);
    let n = pieces.len();
    let mut selected: Vec<TestCategory> = Vec::new();
    let mut i: usize = 0;
    proof {
        assert(pieces@.map_values(|p: String| p@) == spec_comma_pieces(categories_str@, 0));
    }
    while i < n
        invariant
            i <= n,
            n == pieces@.len(),
            spec_lower(spec_trim(categories_str@)) != "all"@,
            pieces@.map_values(|p: String| p@) == spec_comma_pieces(categories_str@, 0),
            spec_selected_categories(
                spec_comma_pieces(categories_str@, 0),
                0,
                include_intensive,
                Seq::empty(),
            ) == spec_selected_categories(
                spec_comma_pieces(categories_str@, 0),
                i as int,
                include_intensive,
                selected@,
            ),
        decreases n - i,
    {
        proof {
            assert(spec_comma_pieces(categories_str@, 0)[i as int] == pieces@[i as int]@);
        }
        let piece = trim_str(pieces[i].as_str());
        if piece.as_str().unicode_len() > 0 {
            match category_of_name(piece.as_str()) {
                None => {
                    let suggestion_err = closest_category_error(piece.as_str());
                    return Err(suggestion_err);
                },
                Some(category) => {
                    let is_intensive = matches!(category, TestCategory::DirectoryTraversal);
                    if include_intensive || !is_intensive {
                        selected.push(category);
                    }
                },
            }
        }
        i = i + 1;
    }
    Ok(selected)
}

/// The error for a piece that names no category, offering the closest
/// category names as suggestions.
fn closest_category_error(piece: &str) -> (r: CliTestError)
    ensures
        r is Config,
{
    let mut names: Vec<&'static str> = Vec::new();
    names.push("basic");
    names.push("help");
    names.push("security");
    names.push("path");
    names.push("multi-shell");
    names.push("input-validation");
    names.push("destructive-ops");
    names.push("directory-traversal");
    names.push("performance");
    proof {
        assert forall|k: int| 0 <= k < names@.len() implies (#[trigger] names@[k])@.len()
            < usize::MAX by {
            assert(names.deep_view()[k] == names@[k]@);
            reveal_strlit("basic");
            reveal_strlit("help");
            reveal_strlit("security");
            reveal_strlit("path");
            reveal_strlit("multi-shell");
            reveal_strlit("input-validation");
            reveal_strlit("destructive-ops");
            reveal_strlit("directory-traversal");
            reveal_strlit("performance");
        }
    }
    let suggestions: Vec<String> = if piece.unicode_len() < usize::MAX {
        find_closest_matches(piece, &names, 3)
    } else {
        Vec::new()
    };
    let mut m = "Invalid test category: '".to_owned();
    m.append(piece);
    if suggestions.len() > 0 {
        m.append("'. Did you mean: ");
        let sn = suggestions.len();
        let mut k: usize = 0;
        while k < sn
            invariant
                k <= sn,
                sn == suggestions@.len(),
            decreases sn - k,
        {
            if k > 0 {
                m.append(", ");
            }
            m.append(suggestions[k].as_str());
            k = k + 1;
        }
        m.append("? Valid categories: ");
    } else {
        m.append("'. Valid categories: ");
    }
    m.append(
        "basic, help, security, path, multi-shell, input-validation, destructive-ops, directory-traversal, performance",
    );
    CliTestError::Config(m)
}

/// Splits on commas, keeping every piece.
fn comma_pieces(s: &str, i: usize) -> (r: Vec<String>)
    requires
        i <= s@.len(),
    ensures
        r@.map_values(|p: String| p@) == spec_comma_pieces(s@, i as int),
    decreases s@.len() - i,
{
    let n = s.unicode_len();
    let j = skip_until(s, i, ',');
    if j >= n {
        let mut r: Vec<String> = Vec::new();
        r.push(substring(s, i, n));
        proof {
            assert(r@.map_values(|p: String| p@) =~= spec_comma_pieces(s@, i as int));
        }
        r
    } else {
        let piece = substring(s, i, j);
        let mut rest = comma_pieces(s, j + 1);
        rest.insert(0, piece);
        proof {
            assert(rest@.map_values(|p: String| p@) =~= spec_comma_pieces(s@, i as int));
        }
        rest
    }
}

} // verus!
