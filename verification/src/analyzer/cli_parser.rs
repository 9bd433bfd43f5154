//! Structural parsing of help text: options, required arguments and
//! version strings.
//!
//! The grammar below mirrors common help conventions. A short flag is a
//! hyphen and one letter bounded by a space, a comma or the line end; a
//! long flag is two hyphens and a kebab-case name of at least two
//! characters; an option takes a value when its long flag is followed by
//! spaces and a `<...>` placeholder; a version token is `digits.digits`,
//! an optional third numeric level and an optional `-suffix`, standing on
//! word boundaries.

use vstd::prelude::*;
use crate::text::{
    is_alpha_char, is_digit_char, is_kebab_char, is_lower_char, is_space_char, is_word_char,
    lemma_scan_until, scan_digits, scan_kebab, scan_spaces, scan_until, skip_digits, skip_kebab,
    skip_spaces, skip_until, spec_contains, spec_lines, spec_lower, spec_trim, split_lines,
    substring, trim_str,
};
use crate::error::CliTestError;
use crate::types::analysis::{
    option_model_wf, spec_forest_count, spec_forest_options, CliAnalysis, CliOption, OptionModel,
    OptionType, OptionTypeModel, Subcommand,
};

verus! {

// ---------------------------------------------------------------------------
// Short flags
// ---------------------------------------------------------------------------

/// A short flag stands at `i`: a hyphen, one letter, and then a space, a
/// comma or the end of the line.
pub open spec fn short_at(t: Seq<char>, i: int) -> bool {
    &&& 0 <= i
    &&& i + 2 <= t.len()
    &&& t[i] == '-'
    &&& is_alpha_char(t[i + 1])
    &&& (i + 2 == t.len() || is_space_char(t[i + 2]) || t[i + 2] == ',')
}

/// Position of the first short flag at or after `i`.
pub open spec fn find_short_from(t: Seq<char>, i: int) -> Option<int>
    decreases t.len() - i,
{
    if i < 0 || i >= t.len() {
        None
    } else if short_at(t, i) {
        Some(i)
    } else {
        find_short_from(t, i + 1)
    }
}

/// The first short flag of the line, as the text `-x`.
pub open spec fn spec_short_flag(t: Seq<char>) -> Option<Seq<char>> {
    match find_short_from(t, 0) {
        Some(i) => Some(seq!['-', t[i + 1]]),
        None => None,
    }
}

fn short_at_exec(t: &str, i: usize) -> (r: bool)
    requires
        i < t@.len(),
    ensures
        r == short_at(t@, i as int),
{
    let n = t.unicode_len();
    if t.get_char(i) != '-' {
        return false;
    }
    if n - i < 2 {
        return false;
    }
    if !crate::text::alpha_char(t.get_char(i + 1)) {
        return false;
    }
    if i + 2 == n {
        return true;
    }
    let c = t.get_char(i + 2);
    crate::text::space_char(c) || c == ','
}

/// The first short flag of the line, such as `-h` in `-h, --help`.
pub fn find_short_flag(t: &str) -> (r: Option<String>)
    ensures
        match r {
            Some(s) => spec_short_flag(t@) == Some(s@),
            None => spec_short_flag(t@) is None,
        },
{
    let n = t.unicode_len();
    let mut i: usize = 0;
    loop
        invariant
            i <= n,
            n == t@.len(),
            find_short_from(t@, 0) == find_short_from(t@, i as int),
        ensures
            find_short_from(t@, 0) == find_short_from(t@, i as int),
            i < n ==> short_at(t@, i as int),
            i == n ==> find_short_from(t@, 0) is None,
        decreases n - i,
    {
        if i == n {
            break ;
        }
        if short_at_exec(t, i) {
            break ;
        }
        i = i + 1;
    }
    if i < n {
        let mut s = String::new();
        s.push('-');
        s.push(t.get_char(i + 1));
        proof {
            assert(s@ =~= seq!['-', t@[i + 1]]);
        }
        Some(s)
    } else {
        None
    }
}

// ---------------------------------------------------------------------------
// Long flags
// ---------------------------------------------------------------------------

/// A long flag starts at `i`: two hyphens, a lower-case letter and at
/// least one more kebab character.
pub open spec fn long_at(t: Seq<char>, i: int) -> bool {
    &&& 0 <= i
    &&& i + 4 <= t.len()
    &&& t[i] == '-'
    &&& t[i + 1] == '-'
    &&& is_lower_char(t[i + 2])
    &&& is_kebab_char(t[i + 3])
}

/// End of the long flag's name, the maximal kebab run.
pub open spec fn long_end(t: Seq<char>, i: int) -> int {
    scan_kebab(t, i + 3)
}

/// Position of the first long flag at or after `i`.
pub open spec fn find_long_from(t: Seq<char>, i: int) -> Option<int>
    decreases t.len() - i,
{
    if i < 0 || i >= t.len() {
        None
    } else if long_at(t, i) {
        Some(i)
    } else {
        find_long_from(t, i + 1)
    }
}

/// The first long flag of the line, as the text `--name`.
pub open spec fn spec_long_flag(t: Seq<char>) -> Option<Seq<char>> {
    match find_long_from(t, 0) {
        Some(i) => Some(seq!['-', '-'] + t.subrange(i + 2, long_end(t, i))),
        None => None,
    }
}

fn long_at_exec(t: &str, i: usize) -> (r: bool)
    requires
        i < t@.len(),
    ensures
        r == long_at(t@, i as int),
{
    let n = t.unicode_len();
    if n - i < 4 {
        return false;
    }
    t.get_char(i) == '-' && t.get_char(i + 1) == '-' && crate::text::lower_alpha_char(
        t.get_char(i + 2),
    ) && crate::text::kebab_char(t.get_char(i + 3))
}

/// Position of the first long flag, shared by the flag, value and
/// description extractors.
fn find_long_pos(t: &str) -> (r: Option<usize>)
    ensures
        match r {
            Some(i) => find_long_from(t@, 0) == Some(i as int) && long_at(t@, i as int) && i + 4
                <= t@.len(),
            None => find_long_from(t@, 0) is None,
        },
{
    let n = t.unicode_len();
    let mut i: usize = 0;
    loop
        invariant
            i <= n,
            n == t@.len(),
            find_long_from(t@, 0) == find_long_from(t@, i as int),
        ensures
            find_long_from(t@, 0) == find_long_from(t@, i as int),
            i < n ==> long_at(t@, i as int),
            i == n ==> find_long_from(t@, 0) is None,
        decreases n - i,
    {
        if i == n {
            break ;
        }
        if long_at_exec(t, i) {
            break ;
        }
        i = i + 1;
    }
    if i < n {
        proof {
            assert(long_at(t@, i as int));
        }
        Some(i)
    } else {
        None
    }
}

/// The first long flag of the line, such as `--help`.
pub fn find_long_flag(t: &str) -> (r: Option<String>)
    ensures
        match r {
            Some(s) => spec_long_flag(t@) == Some(s@),
            None => spec_long_flag(t@) is None,
        },
{
    let n = t.unicode_len();
    match find_long_pos(t) {
        Some(i) => {
            let e = skip_kebab(t, i + 3);
            let name = substring(t, i + 2, e);
            let mut s = "--".to_owned();
            s.append(name.as_str());
            proof {
                reveal_strlit("--");
                assert(s@ =~= seq!['-', '-'] + t@.subrange(i + 2, long_end(t@, i as int)));
            }
            Some(s)
        },
        None => None,
    }
}

// ---------------------------------------------------------------------------
// Value placeholders and descriptions
// ---------------------------------------------------------------------------

/// After a long flag's name ending at `e` comes at least one space, then a
/// `<...>` placeholder with a nonempty body.
pub open spec fn value_tail_at(t: Seq<char>, e: int) -> bool {
    let w = scan_spaces(t, e);
    let k = scan_until(t, w + 1, '>');
    &&& w > e
    &&& w < t.len()
    &&& t[w] == '<'
    &&& k > w + 1
    &&& k < t.len()
}

/// The line shows an option that takes a value: a long flag followed by a
/// `<...>` placeholder.
pub open spec fn spec_has_value(t: Seq<char>) -> bool {
    exists|i: int| long_at(t, i) && value_tail_at(t, long_end(t, i))
}

fn value_tail_exec(t: &str, e: usize) -> (r: bool)
    requires
        e <= t@.len(),
    ensures
        r == value_tail_at(t@, e as int),
{
    let n = t.unicode_len();
    let w = skip_spaces(t, e);
    if w == e || w == n {
        return false;
    }
    if t.get_char(w) != '<' {
        return false;
    }
    let k = skip_until(t, w + 1, '>');
    k > w + 1 && k < n
}

/// Whether the line matches the `--name <value>` shape anywhere.
pub fn has_value_pattern(t: &str) -> (r: bool)
    ensures
        r == spec_has_value(t@),
{
    let n = t.unicode_len();
    let mut i: usize = 0;
    loop
        invariant
            i <= n,
            n == t@.len(),
            forall|k: int|
                0 <= k < i ==> !(long_at(t@, k) && value_tail_at(t@, long_end(t@, k))),
        ensures
            (i < n && long_at(t@, i as int) && value_tail_at(t@, long_end(t@, i as int))) || (i == n
                && forall|k: int|
                0 <= k < i ==> !(long_at(t@, k) && value_tail_at(t@, long_end(t@, k)))),
        decreases n - i,
    {
        if i == n {
            break ;
        }
        if long_at_exec(t, i) {
            let e = skip_kebab(t, i + 3);
            if value_tail_exec(t, e) {
                break ;
            }
        }
        i = i + 1;
    }
    if i < n {
        proof {
            assert(long_at(t@, i as int) && value_tail_at(t@, long_end(t@, i as int)));
        }
        true
    } else {
        proof {
            assert(forall|k: int|
                long_at(t@, k) && value_tail_at(t@, long_end(t@, k)) ==> 0 <= k < t@.len()
                    && !(long_at(t@, k) && value_tail_at(t@, long_end(t@, k))));
        }
        false
    }
}

/// Start of the description after a value placeholder, if that reading
/// works: spaces, the placeholder, at least one space, then text.
pub open spec fn desc_with_value_start(t: Seq<char>, e: int) -> Option<int> {
    if value_tail_at(t, e) {
        let w = scan_spaces(t, e);
        let k = scan_until(t, w + 1, '>');
        let w2 = scan_spaces(t, k + 1);
        if w2 > k + 1 && w2 < t.len() {
            Some(w2)
        } else {
            None
        }
    } else {
        None
    }
}

/// Start of the description directly after the flag: at least one space,
/// then text.
pub open spec fn desc_plain_start(t: Seq<char>, e: int) -> Option<int> {
    let w = scan_spaces(t, e);
    if w > e && w < t.len() {
        Some(w)
    } else {
        None
    }
}

/// Start of the description for a long flag at `i`; the reading over a
/// value placeholder is preferred.
pub open spec fn desc_start_at(t: Seq<char>, i: int) -> Option<int> {
    let e = long_end(t, i);
    match desc_with_value_start(t, e) {
        Some(d) => Some(d),
        None => desc_plain_start(t, e),
    }
}

/// First long-flag position whose description reading works.
pub open spec fn find_desc_from(t: Seq<char>, i: int) -> Option<int>
    decreases t.len() - i,
{
    if i < 0 || i >= t.len() {
        None
    } else if long_at(t, i) && desc_start_at(t, i) is Some {
        desc_start_at(t, i)
    } else {
        find_desc_from(t, i + 1)
    }
}

/// The description of the line: the trimmed text after the first long
/// flag and its optional value placeholder.
pub open spec fn spec_description(t: Seq<char>) -> Option<Seq<char>> {
    match find_desc_from(t, 0) {
        Some(d) => Some(spec_trim(t.subrange(d, t.len() as int))),
        None => None,
    }
}

fn desc_start_exec(t: &str, i: usize) -> (r: Option<usize>)
    requires
        i < t@.len(),
        long_at(t@, i as int),
    ensures
        match r {
            Some(d) => desc_start_at(t@, i as int) == Some(d as int) && d <= t@.len(),
            None => desc_start_at(t@, i as int) is None,
        },
{
    let n = t.unicode_len();
    let e = skip_kebab(t, i + 3);
    if value_tail_exec(t, e) {
        let w = skip_spaces(t, e);
        let k = skip_until(t, w + 1, '>');
        let w2 = skip_spaces(t, k + 1);
        if w2 > k + 1 && w2 < n {
            return Some(w2);
        }
    }
    let w = skip_spaces(t, e);
    if w > e && w < n {
        Some(w)
    } else {
        None
    }
}

/// The trailing description of an option line, when one can be read.
pub fn find_description(t: &str) -> (r: Option<String>)
    ensures
        match r {
            Some(s) => spec_description(t@) == Some(s@),
            None => spec_description(t@) is None,
        },
{
    let n = t.unicode_len();
    let mut i: usize = 0;
    let mut found: Option<usize> = None;
    loop
        invariant
            i <= n,
            n == t@.len(),
            found is None,
            find_desc_from(t@, 0) == find_desc_from(t@, i as int),
        ensures
            find_desc_from(t@, 0) == find_desc_from(t@, i as int),
            i < n ==> long_at(t@, i as int) && desc_start_at(t@, i as int) is Some,
            i == n ==> find_desc_from(t@, 0) is None,
        decreases n - i,
    {
        if i == n {
            break ;
        }
        if long_at_exec(t, i) {
            if desc_start_exec(t, i).is_some() {
                break ;
            }
        }
        i = i + 1;
    }
    if i < n {
        let d = match desc_start_exec(t, i) {
            Some(d) => d,
            None => {
                proof {
                    assert(false);
                }
                0
            },
        };
        let tail = substring(t, d, n);
        Some(trim_str(tail.as_str()))
    } else {
        None
    }
}

// ---------------------------------------------------------------------------
// Whole option lines
// ---------------------------------------------------------------------------

/// What one line of help text contributes: `None` for blank lines, lines
/// without a hyphen and lines with no flag; otherwise the option, typed
/// `Str` when a value placeholder follows the long flag and `Flag`
/// otherwise.
pub open spec fn spec_line_candidate(line: Seq<char>) -> Option<OptionModel> {
    let t = spec_trim(line);
    if t.len() == 0 || !spec_contains(t, seq!['-']) {
        None
    } else {
        let short = spec_short_flag(t);
        let long = spec_long_flag(t);
        if short is None && long is None {
            None
        } else {
            Some(
                OptionModel {
                    short,
                    long,
                    description: spec_description(t),
                    option_type: if spec_has_value(t) {
                        OptionTypeModel::Str
                    } else {
                        OptionTypeModel::Flag
                    },
                    required: false,
                    default_value: None,
                },
            )
        }
    }
}

/// Reads one line of help text as an option, if it shows one.
fn line_candidate(line: &str) -> (r: Option<CliOption>)
    ensures
        match r {
            Some(o) => spec_line_candidate(line@) == Some(o@),
            None => spec_line_candidate(line@) is None,
        },
{
    let t = trim_str(line);
    let ts = t.as_str();
    if ts.unicode_len() == 0 {
        return None;
    }
    if !crate::text::contains_str(ts, "-") {
        proof {
            reveal_strlit("-");
            assert("-"@ =~= seq!['-']);
        }
        return None;
    }
    proof {
        reveal_strlit("-");
        assert("-"@ =~= seq!['-']);
    }
    let short = find_short_flag(ts);
    let long = find_long_flag(ts);
    if short.is_none() && long.is_none() {
        return None;
    }
    let description = find_description(ts);
    let option_type = if has_value_pattern(ts) {
        OptionType::String
    } else {
        OptionType::Flag
    };
    Some(CliOption { short, long, description, option_type, required: false, default_value: None })
}

/// Two parsed options denote the same flag pair.
pub open spec fn key_matches(a: OptionModel, b: OptionModel) -> bool {
    a.short == b.short && a.long == b.long
}

/// The candidate's flag pair already occurs in the accumulated list.
pub open spec fn key_seen(c: OptionModel, acc: Seq<OptionModel>) -> bool {
    exists|j: int| 0 <= j < acc.len() && key_matches(#[trigger] acc[j], c)
}

/// The options of the lines `lines[i..]`, added to `acc` in order of first
/// occurrence; a line whose flag pair was already seen adds nothing.
pub open spec fn spec_parse_opts_rec(lines: Seq<Seq<char>>, i: int, acc: Seq<OptionModel>) -> Seq<
    OptionModel,
>
    decreases lines.len() - i,
{
    if i < 0 || i >= lines.len() {
        acc
    } else {
        match spec_line_candidate(lines[i]) {
            None => spec_parse_opts_rec(lines, i + 1, acc),
            Some(c) => if key_seen(c, acc) {
                spec_parse_opts_rec(lines, i + 1, acc)
            } else {
                spec_parse_opts_rec(lines, i + 1, acc.push(c))
            },
        }
    }
}

/// Everything `parse_options` returns for a help text.
pub open spec fn spec_parse_options(s: Seq<char>) -> Seq<OptionModel> {
    spec_parse_opts_rec(spec_lines(s), 0, Seq::empty())
}

/// No two entries of the list share a flag pair.
pub open spec fn keys_distinct(s: Seq<OptionModel>) -> bool {
    forall|j: int, k: int| 0 <= j < k < s.len() ==> !key_matches(#[trigger] s[j], #[trigger] s[k])
}

/// Parsing keeps the accumulated list free of repeated flag pairs.
proof fn lemma_parse_opts_rec_distinct(lines: Seq<Seq<char>>, i: int, acc: Seq<OptionModel>)
    requires
        keys_distinct(acc),
    ensures
        keys_distinct(spec_parse_opts_rec(lines, i, acc)),
    decreases lines.len() - i,
{
    if 0 <= i && i < lines.len() {
        match spec_line_candidate(lines[i]) {
            None => {
                lemma_parse_opts_rec_distinct(lines, i + 1, acc);
            },
            Some(c) => {
                if key_seen(c, acc) {
                    lemma_parse_opts_rec_distinct(lines, i + 1, acc);
                } else {
                    assert(keys_distinct(acc.push(c))) by {
                        assert(forall|j: int|
                            0 <= j < acc.len() ==> !key_matches(
                                #[trigger] acc.push(c)[j],
                                acc.push(c)[acc.len() as int],
                            ));
                    }
                    lemma_parse_opts_rec_distinct(lines, i + 1, acc.push(c));
                }
            },
        }
    }
}

/// Every parsed option is well-formed and still untyped: it names a flag,
/// and its type is `Flag` or `Str`.
pub open spec fn parsed_option_wf(o: OptionModel) -> bool {
    &&& option_model_wf(o)
    &&& (o.option_type is Flag || o.option_type is Str)
    &&& !o.required
    &&& o.default_value is None
}

/// Every option of the list is well-formed and untyped.
pub open spec fn all_parsed_wf(s: Seq<OptionModel>) -> bool {
    forall|j: int| 0 <= j < s.len() ==> parsed_option_wf(#[trigger] s[j])
}

/// Parsing only adds well-formed, untyped options.
proof fn lemma_parse_opts_rec_wf(lines: Seq<Seq<char>>, i: int, acc: Seq<OptionModel>)
    requires
        all_parsed_wf(acc),
    ensures
        all_parsed_wf(spec_parse_opts_rec(lines, i, acc)),
    decreases lines.len() - i,
{
    if 0 <= i && i < lines.len() {
        match spec_line_candidate(lines[i]) {
            None => {
                lemma_parse_opts_rec_wf(lines, i + 1, acc);
            },
            Some(c) => {
                if key_seen(c, acc) {
                    lemma_parse_opts_rec_wf(lines, i + 1, acc);
                } else {
                    assert(parsed_option_wf(c));
                    assert(all_parsed_wf(acc.push(c))) by {
                        assert(forall|j: int|
                            0 <= j < acc.push(c).len() ==> parsed_option_wf(
                                #[trigger] acc.push(c)[j],
                            ));
                    }
                    lemma_parse_opts_rec_wf(lines, i + 1, acc.push(c));
                }
            },
        }
    }
}

// ---------------------------------------------------------------------------
// Usage lines and required arguments
// ---------------------------------------------------------------------------

/// The line opens with optional spaces, `usage:` in any case, and at
/// least one space after the colon.
pub open spec fn usage_line_matches(l: Seq<char>) -> bool {
    let w = scan_spaces(l, 0);
    &&& w + 6 < l.len()
    &&& spec_lower(l.subrange(w, w + 6)) == "usage:"@
    &&& is_space_char(l[w + 6])
}

/// Whether a line is a usage line.
pub fn usage_line_exec(l: &str) -> (r: bool)
    ensures
        r == usage_line_matches(l@),
{
    let n = l.unicode_len();
    let w = skip_spaces(l, 0);
    if n - w < 7 {
        return false;
    }
    let head = substring(l, w, w + 6);
    let lowered = crate::text::lowercase_str(head.as_str());
    if !crate::text::str_eq(lowered.as_str(), "usage:") {
        proof {
            assert(spec_lower(l@.subrange(w as int, w + 6 as int)) == lowered@);
        }
        return false;
    }
    crate::text::space_char(l.get_char(w + 6))
}

/// The `<...>` tokens of `l[i..]`, in order, without their brackets.
pub open spec fn spec_bracket_args(l: Seq<char>, i: int) -> Seq<Seq<char>>
    decreases l.len() - i,
    via spec_bracket_args_dec
{
    if i < 0 || i >= l.len() {
        Seq::empty()
    } else {
        let k = scan_until(l, i + 1, '>');
        if l[i] == '<' && k > i + 1 && k < l.len() {
            seq![l.subrange(i + 1, k)] + spec_bracket_args(l, k + 1)
        } else {
            spec_bracket_args(l, i + 1)
        }
    }
}

#[via_fn]
proof fn spec_bracket_args_dec(l: Seq<char>, i: int) {
    if 0 <= i && i < l.len() {
        lemma_scan_until(l, i + 1, '>');
    }
}

/// Collects the `<...>` tokens of one line.
fn bracket_args(l: &str, i: usize) -> (r: Vec<String>)
    requires
        i <= l@.len(),
    ensures
        r@.map_values(|a: String| a@) == spec_bracket_args(l@, i as int),
    decreases l@.len() - i,
{
    let n = l.unicode_len();
    if i >= n {
        let r: Vec<String> = Vec::new();
        proof {
            assert(r@.map_values(|a: String| a@) =~= spec_bracket_args(l@, i as int));
        }
        return r;
    }
    if l.get_char(i) == '<' {
        let k = skip_until(l, i + 1, '>');
        if k > i + 1 && k < n {
            let arg = substring(l, i + 1, k);
            let mut rest = bracket_args(l, k + 1);
            rest.insert(0, arg);
            proof {
                assert(rest@.map_values(|a: String| a@) =~= spec_bracket_args(l@, i as int));
            }
            return rest;
        }
    }
    let r = bracket_args(l, i + 1);
    proof {
        assert(r@.map_values(|a: String| a@) =~= spec_bracket_args(l@, i as int));
    }
    r
}

/// Index of the first usage line among `lines[i..]`.
pub open spec fn find_usage_line(lines: Seq<Seq<char>>, i: int) -> Option<int>
    decreases lines.len() - i,
{
    if i < 0 || i >= lines.len() {
        None
    } else if usage_line_matches(lines[i]) {
        Some(i)
    } else {
        find_usage_line(lines, i + 1)
    }
}

/// The required positional arguments of a help text: every `<...>` token
/// of the first usage line, in order; later usage lines are ignored.
pub open spec fn spec_required_args(s: Seq<char>) -> Seq<Seq<char>> {
    let lines = spec_lines(s);
    match find_usage_line(lines, 0) {
        Some(i) => spec_bracket_args(lines[i], 0),
        None => Seq::empty(),
    }
}

// ---------------------------------------------------------------------------
// Version tokens
// ---------------------------------------------------------------------------

/// A character allowed in a version suffix: lower-case letter, digit or
/// dot.
pub open spec fn is_vsuffix_char(c: char) -> bool {
    is_lower_char(c) || is_digit_char(c) || c == '.'
}

/// Scans over version-suffix characters.
pub open spec fn scan_vsuffix(s: Seq<char>, i: int) -> int
    decreases s.len() - i,
{
    if 0 <= i && i < s.len() && is_vsuffix_char(s[i]) {
        scan_vsuffix(s, i + 1)
    } else {
        i
    }
}

fn vsuffix_char(c: char) -> (r: bool)
    ensures
        r == is_vsuffix_char(c),
{
    ('a' <= c && c <= 'z') || ('0' <= c && c <= '9') || c == '.'
}

fn skip_vsuffix(s: &str, i: usize) -> (r: usize)
    requires
        i <= s@.len(),
    ensures
        r == scan_vsuffix(s@, i as int),
        i <= r <= s@.len(),
{
    let n = s.unicode_len();
    let mut j = i;
    loop
        invariant
            i <= j <= n,
            n == s@.len(),
            scan_vsuffix(s@, i as int) == scan_vsuffix(s@, j as int),
        ensures
            j == scan_vsuffix(s@, i as int),
        decreases n - j,
    {
        if j == n {
            break ;
        }
        if !vsuffix_char(s.get_char(j)) {
            break ;
        }
        j = j + 1;
    }
    j
}

/// The position after a candidate token ending at `e` is a word boundary.
pub open spec fn ver_end_ok(s: Seq<char>, e: int) -> bool {
    e == s.len() || !is_word_char(s[e])
}

/// End of the version suffix starting at `e`, when one stands there.
pub open spec fn ver_suffix_end(s: Seq<char>, e: int) -> Option<int> {
    if e < s.len() && s[e] == '-' && e + 1 < s.len() && is_vsuffix_char(s[e + 1]) {
        Some(scan_vsuffix(s, e + 1))
    } else {
        None
    }
}

/// End of the version token starting at `i`, or `None` when no token
/// stands there. The token is `digits.digits`, an optional third numeric
/// level and an optional `-suffix`; of the readings that end on a word
/// boundary, the longest wins, and a reading with the third level is
/// preferred over one with a suffix directly after the second.
pub open spec fn ver_match_end(s: Seq<char>, i: int) -> Option<int> {
    let d1e = scan_digits(s, i);
    if !(0 <= i && i < s.len() && is_digit_char(s[i]) && d1e < s.len() && s[d1e] == '.' && d1e + 1
        < s.len() && is_digit_char(s[d1e + 1])) {
        None
    } else {
        let d2e = scan_digits(s, d1e + 1);
        let d3e: Option<int> = if d2e < s.len() && s[d2e] == '.' && d2e + 1 < s.len()
            && is_digit_char(s[d2e + 1]) {
            Some(scan_digits(s, d2e + 1))
        } else {
            None
        };
        match d3e {
            Some(e3) => {
                match ver_suffix_end(s, e3) {
                    Some(se) if ver_end_ok(s, se) => Some(se),
                    _ => if ver_end_ok(s, e3) {
                        Some(e3)
                    } else if ver_end_ok(s, d2e) {
                        Some(d2e)
                    } else {
                        None
                    },
                }
            },
            None => {
                match ver_suffix_end(s, d2e) {
                    Some(se) if ver_end_ok(s, se) => Some(se),
                    _ => if ver_end_ok(s, d2e) {
                        Some(d2e)
                    } else {
                        None
                    },
                }
            },
        }
    }
}

/// A version token stands at `i`: it begins on a word boundary and some
/// reading of it ends on one.
pub open spec fn ver_at(s: Seq<char>, i: int) -> bool {
    &&& 0 <= i < s.len()
    &&& (i == 0 || !is_word_char(s[i - 1]))
    &&& ver_match_end(s, i) is Some
}

/// Start of the first version token at or after `i`.
pub open spec fn find_ver_from(s: Seq<char>, i: int) -> Option<int>
    decreases s.len() - i,
{
    if i < 0 || i >= s.len() {
        None
    } else if ver_at(s, i) {
        Some(i)
    } else {
        find_ver_from(s, i + 1)
    }
}

/// The first version-shaped token of the output, if any.
pub open spec fn spec_extract_version(s: Seq<char>) -> Option<Seq<char>> {
    match find_ver_from(s, 0) {
        Some(i) => Some(s.subrange(i, ver_match_end(s, i)->0)),
        None => None,
    }
}

fn ver_match_end_exec(s: &str, i: usize) -> (r: Option<usize>)
    requires
        i <= s@.len(),
    ensures
        match r {
            Some(e) => ver_match_end(s@, i as int) == Some(e as int) && i <= e <= s@.len(),
            None => ver_match_end(s@, i as int) is None,
        },
{
    let n = s.unicode_len();
    if i >= n || !crate::text::digit_char(s.get_char(i)) {
        return None;
    }
    let d1e = skip_digits(s, i);
    if d1e >= n || s.get_char(d1e) != '.' || d1e + 1 >= n || !crate::text::digit_char(
        s.get_char(d1e + 1),
    ) {
        return None;
    }
    let d2e = skip_digits(s, d1e + 1);
    let e3: Option<usize> = if d2e < n && s.get_char(d2e) == '.' && d2e + 1 < n
        && crate::text::digit_char(s.get_char(d2e + 1)) {
        Some(skip_digits(s, d2e + 1))
    } else {
        None
    };
    match e3 {
        Some(e3) => {
            match ver_suffix_end_exec(s, e3) {
                Some(se) => {
                    if ver_end_ok_exec(s, se) {
                        return Some(se);
                    }
                    if ver_end_ok_exec(s, e3) {
                        Some(e3)
                    } else if ver_end_ok_exec(s, d2e) {
                        Some(d2e)
                    } else {
                        None
                    }
                },
                None => {
                    if ver_end_ok_exec(s, e3) {
                        Some(e3)
                    } else if ver_end_ok_exec(s, d2e) {
                        Some(d2e)
                    } else {
                        None
                    }
                },
            }
        },
        None => {
            match ver_suffix_end_exec(s, d2e) {
                Some(se) => {
                    if ver_end_ok_exec(s, se) {
                        return Some(se);
                    }
                    if ver_end_ok_exec(s, d2e) {
                        Some(d2e)
                    } else {
                        None
                    }
                },
                None => {
                    if ver_end_ok_exec(s, d2e) {
                        Some(d2e)
                    } else {
                        None
                    }
                },
            }
        },
    }
}

fn ver_suffix_end_exec(s: &str, e: usize) -> (r: Option<usize>)
    requires
        e <= s@.len(),
    ensures
        match r {
            Some(se) => ver_suffix_end(s@, e as int) == Some(se as int) && e < se <= s@.len(),
            None => ver_suffix_end(s@, e as int) is None,
        },
{
    let n = s.unicode_len();
    if e < n && s.get_char(e) == '-' && e + 1 < n && vsuffix_char(s.get_char(e + 1)) {
        Some(skip_vsuffix(s, e + 1))
    } else {
        None
    }
}

fn ver_end_ok_exec(s: &str, e: usize) -> (r: bool)
    requires
        e <= s@.len(),
    ensures
        r == ver_end_ok(s@, e as int),
{
    e == s.unicode_len() || !crate::text::word_char(s.get_char(e))
}

/// The first version-shaped token in a probe's output, such as `7.64.1`
/// in `curl 7.64.1`.
pub fn extract_version(output: &str) -> (r: Option<String>)
    ensures
        match r {
            Some(v) => spec_extract_version(output@) == Some(v@),
            None => spec_extract_version(output@) is None,
        },
{
    let s = output;
    let n = s.unicode_len();
    let mut i: usize = 0;
    loop
        invariant
            i <= n,
            n == s@.len(),
            find_ver_from(s@, 0) == find_ver_from(s@, i as int),
        ensures
            find_ver_from(s@, 0) == find_ver_from(s@, i as int),
            i < n ==> ver_at(s@, i as int),
            i == n ==> find_ver_from(s@, 0) is None,
        decreases n - i,
    {
        if i == n {
            break ;
        }
        let boundary = i == 0 || !crate::text::word_char(s.get_char(i - 1));
        if boundary {
            if ver_match_end_exec(s, i).is_some() {
                break ;
            }
        }
        i = i + 1;
    }
    if i < n {
        match ver_match_end_exec(s, i) {
            Some(e) => Some(substring(s, i, e)),
            None => {
                proof {
                    assert(false);
                }
                None
            },
        }
    } else {
        None
    }
}

// ---------------------------------------------------------------------------
// The parser
// ---------------------------------------------------------------------------

/// Parses help output into options and required arguments. The resource
/// limits it carries bound the probes a caller makes on its behalf.
pub struct CliParser {
    /// Limits applied to every probe run for this parser.
    pub resource_limits: crate::utils::resource_limits::ResourceLimits,
}

impl CliParser {
    /// A parser with the default resource limits.
    pub fn new() -> (r: Self)
        ensures
            r.resource_limits == crate::utils::resource_limits::ResourceLimits::spec_default(),
    {
        CliParser { resource_limits: crate::utils::resource_limits::ResourceLimits::default() }
    }

    /// A parser with the given resource limits.
    pub fn with_limits(resource_limits: crate::utils::resource_limits::ResourceLimits) -> (r: Self)
        ensures
            r.resource_limits == resource_limits,
    {
        CliParser { resource_limits }
    }

    /// Reads every option line of a help text, in order, dropping lines
    /// that show no flag and every repetition of an already-seen flag
    /// pair; the first occurrence wins. Each option is returned untyped,
    /// as a flag or, with a `<...>` placeholder, as a string option.
    pub fn parse_options(&self, help_output: &str) -> (r: Vec<CliOption>)
        ensures
            r@.map_values(|o: CliOption| o@) == spec_parse_options(help_output@),
            keys_distinct(r@.map_values(|o: CliOption| o@)),
            all_parsed_wf(r@.map_values(|o: CliOption| o@)),
            forall|j: int| 0 <= j < r@.len() ==> parsed_option_wf(#[trigger] r@[j]@),
    {
        let lines = split_lines(help_output);
        let n = lines.len();
        let mut options: Vec<CliOption> = Vec::new();
        let mut i: usize = 0;
        proof {
            assert(options@.map_values(|o: CliOption| o@) =~= Seq::<OptionModel>::empty());
        }
        while i < n
            invariant
                i <= n,
                n == lines@.len(),
                lines@.map_values(|l: String| l@) == spec_lines(help_output@),
                spec_parse_opts_rec(spec_lines(help_output@), 0, Seq::empty())
                    == spec_parse_opts_rec(
                    spec_lines(help_output@),
                    i as int,
                    options@.map_values(|o: CliOption| o@),
                ),
            decreases n - i,
        {
            let ghost lines_model = spec_lines(help_output@);
            let ghost acc_before = options@.map_values(|o: CliOption| o@);
            proof {
                assert(lines_model[i as int] == lines@[i as int]@);
            }
            match line_candidate(lines[i].as_str()) {
                None => {},
                Some(c) => {
                    let seen = Self::key_seen_exec(&options, &c);
                    if !seen {
                        options.push(c);
                        proof {
                            assert(options@.map_values(|o: CliOption| o@) =~= acc_before.push(c@));
                        }
                    }
                },
            }
            i = i + 1;
        }
        proof {
            lemma_parse_opts_rec_distinct(spec_lines(help_output@), 0, Seq::empty());
            lemma_parse_opts_rec_wf(spec_lines(help_output@), 0, Seq::empty());
            let models = options@.map_values(|o: CliOption| o@);
            assert forall|j: int| 0 <= j < options@.len() implies parsed_option_wf(
                #[trigger] options@[j]@,
            ) by {
                assert(models[j] == options@[j]@);
                assert(parsed_option_wf(models[j]));
            }
        }
        options
    }

    /// Whether an option with the same flag pair is already in the list.
    fn key_seen_exec(options: &Vec<CliOption>, c: &CliOption) -> (r: bool)
        ensures
            r == key_seen(c@, options@.map_values(|o: CliOption| o@)),
    {
        let n = options.len();
        let mut j: usize = 0;
        loop
            invariant
                j <= n,
                n == options@.len(),
                forall|k: int| 0 <= k < j ==> !key_matches(#[trigger] options@[k]@, c@),
            ensures
                (j < n && key_matches(options@[j as int]@, c@)) || (j == n && forall|k: int|
                    0 <= k < j ==> !key_matches(#[trigger] options@[k]@, c@)),
            decreases n - j,
        {
            if j == n {
                break ;
            }
            let same_short = Self::opt_str_eq(&options[j].short, &c.short);
            let same_long = Self::opt_str_eq(&options[j].long, &c.long);
            if same_short && same_long {
                proof {
                    assert(key_matches(options@[j as int]@, c@));
                }
                break ;
            }
            proof {
                assert(!key_matches(options@[j as int]@, c@));
            }
            j = j + 1;
        }
        proof {
            let models = options@.map_values(|o: CliOption| o@);
            assert(forall|k: int| 0 <= k < options@.len() ==> #[trigger] models[k] == options@[k]@);
            if j < options@.len() {
                assert(key_matches(models[j as int], c@));
            }
        }
        j < n
    }

    /// View-level equality of two optional strings.
    fn opt_str_eq(a: &Option<String>, b: &Option<String>) -> (r: bool)
        ensures
            r == (a.deep_view() == b.deep_view()),
    {
        match (a, b) {
            (None, None) => true,
            (Some(x), Some(y)) => {
                let eq = crate::text::str_eq(x.as_str(), y.as_str());
                proof {
                    if a.deep_view() == b.deep_view() {
                        assert(a.deep_view()->0 == b.deep_view()->0);
                    }
                }
                eq
            },
            _ => false,
        }
    }

    /// The `<...>` tokens of the first usage line, in order; help texts
    /// without a usage line have no required arguments.
    pub fn parse_required_args(&self, help_output: &str) -> (r: Vec<String>)
        ensures
            r@.map_values(|a: String| a@) == spec_required_args(help_output@),
    {
        let lines = split_lines(help_output);
        let n = lines.len();
        let mut i: usize = 0;
        loop
            invariant
                i <= n,
                n == lines@.len(),
                lines@.map_values(|l: String| l@) == spec_lines(help_output@),
                find_usage_line(spec_lines(help_output@), 0) == find_usage_line(
                    spec_lines(help_output@),
                    i as int,
                ),
            ensures
                find_usage_line(spec_lines(help_output@), 0) == find_usage_line(
                    spec_lines(help_output@),
                    i as int,
                ),
                i < n ==> usage_line_matches(spec_lines(help_output@)[i as int]),
                i == n ==> find_usage_line(spec_lines(help_output@), 0) is None,
            decreases n - i,
        {
            if i == n {
                break ;
            }
            proof {
                assert(spec_lines(help_output@)[i as int] == lines@[i as int]@);
            }
            if usage_line_exec(lines[i].as_str()) {
                break ;
            }
            i = i + 1;
        }
        if i < n {
            proof {
                assert(spec_lines(help_output@)[i as int] == lines@[i as int]@);
            }
            bracket_args(lines[i].as_str(), 0)
        } else {
            let r: Vec<String> = Vec::new();
            proof {
                assert(r@.map_values(|a: String| a@) =~= spec_required_args(help_output@));
            }
            r
        }
    }
}

impl Default for CliParser {
    /// The same parser `new` builds.
    fn default() -> (r: Self)
        ensures
            r.resource_limits == crate::utils::resource_limits::ResourceLimits::spec_default(),
    {
        CliParser::new()
    }
}


// ---------------------------------------------------------------------------
// Assembling an analysis
// ---------------------------------------------------------------------------

/// The output a help chain uses, from an ordered row of probe
/// attempts: the first attempt that succeeded with output that is not
/// blank after trimming. A failed attempt contributes `None`; a row
/// with no usable output selects nothing.
pub open spec fn spec_first_usable(outputs: Seq<Option<Seq<char>>>, i: int) -> Option<Seq<char>>
    decreases outputs.len() - i,
{
    if i < 0 || i >= outputs.len() {
        None
    } else {
        match outputs[i] {
            Some(o) => if spec_trim(o).len() > 0 {
                Some(o)
            } else {
                spec_first_usable(outputs, i + 1)
            },
            None => spec_first_usable(outputs, i + 1),
        }
    }
}

impl CliParser {
    /// Selects the help text out of the help probe chain's attempts, in
    /// their probe order — `--help`, then `-h`, then the `help`
    /// subcommand, and the analogous chain for a subcommand candidate:
    /// the first output that is not blank wins, and failed probes count
    /// for nothing. `None` means the whole chain produced nothing
    /// usable.
    pub fn choose_help_output(&self, outputs: &Vec<Option<String>>) -> (r: Option<String>)
        ensures
            match r {
                Some(h) => spec_first_usable(outputs.deep_view(), 0) == Some(h@),
                None => spec_first_usable(outputs.deep_view(), 0) is None,
            },
    {
        let ghost dv = outputs.deep_view();
        let n = outputs.len();
        let mut i: usize = 0;
        loop
            invariant
                i <= n,
                n == outputs@.len(),
                dv == outputs.deep_view(),
                dv.len() == n,
                spec_first_usable(dv, 0) == spec_first_usable(dv, i as int),
            ensures
                spec_first_usable(dv, 0) == spec_first_usable(dv, i as int),
                i < n ==> (outputs@[i as int] matches Some(o) && spec_trim(o@).len() > 0),
                i == n ==> spec_first_usable(dv, 0) is None,
            decreases n - i,
        {
            if i == n {
                break ;
            }
            proof {
                assert(dv[i as int] == outputs@[i as int].deep_view());
            }
            match &outputs[i] {
                Some(o) => {
                    if !crate::text::is_blank(o.as_str()) {
                        break ;
                    }
                },
                None => {},
            }
            i = i + 1;
        }
        if i < n {
            match &outputs[i] {
                Some(o) => {
                    proof {
                        assert(dv[i as int] == outputs@[i as int].deep_view());
                    }
                    Some(o.clone())
                },
                None => {
                    proof {
                        assert(false);
                    }
                    None
                },
            }
        } else {
            None
        }
    }
}

/// The version taken from a row of probe outputs: the first output that
/// holds a version-shaped token decides.
pub open spec fn spec_first_version(outputs: Seq<Seq<char>>, i: int) -> Option<Seq<char>>
    decreases outputs.len() - i,
{
    if i < 0 || i >= outputs.len() {
        None
    } else if spec_extract_version(outputs[i]) is Some {
        spec_extract_version(outputs[i])
    } else {
        spec_first_version(outputs, i + 1)
    }
}

impl CliParser {
    /// The version string of a binary, from the outputs of the version
    /// probes in their probe order: `--version`, then `-v`, then the
    /// `version` subcommand. The first version-shaped token wins; none
    /// anywhere is no error.
    pub fn try_get_version(&self, version_outputs: &Vec<String>) -> (r: Option<String>)
        ensures
            match r {
                Some(v) => spec_first_version(version_outputs.deep_view(), 0) == Some(v@),
                None => spec_first_version(version_outputs.deep_view(), 0) is None,
            },
    {
        let n = version_outputs.len();
        let mut i: usize = 0;
        loop
            invariant
                i <= n,
                n == version_outputs@.len(),
                spec_first_version(version_outputs.deep_view(), 0) == spec_first_version(
                    version_outputs.deep_view(),
                    i as int,
                ),
            ensures
                spec_first_version(version_outputs.deep_view(), 0) == spec_first_version(
                    version_outputs.deep_view(),
                    i as int,
                ),
                i < n ==> spec_extract_version(version_outputs.deep_view()[i as int]) is Some,
                i == n ==> spec_first_version(version_outputs.deep_view(), 0) is None,
            decreases n - i,
        {
            if i == n {
                break ;
            }
            proof {
                assert(version_outputs.deep_view()[i as int] == version_outputs@[i as int]@);
            }
            if extract_version(version_outputs[i].as_str()).is_some() {
                break ;
            }
            i = i + 1;
        }
        if i < n {
            proof {
                assert(version_outputs.deep_view()[i as int] == version_outputs@[i as int]@);
            }
            extract_version(version_outputs[i].as_str())
        } else {
            None
        }
    }

    /// Builds the analysis record of one binary from the probe results
    /// the caller gathered: the canonical path and file name of the
    /// validated binary, the first nonempty help output, the version
    /// probe outputs, the discovered subcommand forest, and the elapsed
    /// time and timestamp. Help output that is empty after trimming is
    /// the one fatal condition: the analysis is rejected with
    /// `InvalidHelpOutput`, so a returned record never carries blank
    /// help text.
    pub fn analyze(
        &self,
        canonical_path: String,
        binary_name: String,
        help_output: String,
        version_outputs: &Vec<String>,
        subcommands: Vec<Subcommand>,
        duration_ms: u64,
        analyzed_at: String,
    ) -> (r: Result<CliAnalysis, CliTestError>)
        requires
            spec_forest_count(subcommands@, 0) <= usize::MAX,
            spec_parse_options(help_output@).len() + spec_forest_options(subcommands@, 0)
                <= usize::MAX,
        ensures
            (spec_trim(help_output@).len() == 0) <==> (r is Err),
            r is Err ==> r->Err_0 is InvalidHelpOutput,
            r is Ok ==> {
                let a = r->Ok_0;
                &&& a.binary_path == canonical_path
                &&& a.binary_name == binary_name
                &&& a.help_output == help_output
                &&& spec_trim(a.help_output@).len() > 0
                &&& (match a.version {
                    Some(v) => spec_first_version(version_outputs.deep_view(), 0) == Some(v@),
                    None => spec_first_version(version_outputs.deep_view(), 0) is None,
                })
                &&& a.global_options@.map_values(|o: CliOption| o@) == spec_parse_options(
                    help_output@,
                )
                &&& a.subcommands == subcommands
                &&& a.metadata.total_subcommands == spec_forest_count(subcommands@, 0)
                &&& a.metadata.total_options == spec_parse_options(help_output@).len()
                    + spec_forest_options(subcommands@, 0)
                &&& a.metadata.analysis_duration_ms == duration_ms
                &&& a.metadata.analyzed_at == analyzed_at
            },
    {
        if crate::text::is_blank(help_output.as_str()) {
            return Err(CliTestError::InvalidHelpOutput);
        }
        let version = self.try_get_version(version_outputs);
        let global_options = self.parse_options(help_output.as_str());
        let mut analysis = CliAnalysis::new(canonical_path, binary_name, help_output);
        analysis.version = version;
        analysis.global_options = global_options;
        analysis.subcommands = subcommands;
        analysis.metadata.analyzed_at = analyzed_at;
        analysis.update_metadata(duration_ms);
        Ok(analysis)
    }
}

} // verus!
