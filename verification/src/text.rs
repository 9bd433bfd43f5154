//! Character-level text utilities shared by the help-text parsers.
//!
//! All scanning functions come in pairs: a spec function over `Seq<char>`
//! that states the result, and an executable function over `&str` proved
//! equal to it.

use vstd::prelude::*;

verus! {

/// Relies on String::push: appends exactly one character at the end.
pub assume_specification[ std::string::String::push ](s: &mut String, ch: char)
    ensures
        final(s)@ == old(s)@.push(ch),
;

// ---------------------------------------------------------------------------
// Character classes
// ---------------------------------------------------------------------------

pub open spec fn is_space_char(c: char) -> bool {
    c == ' ' || c == '\t' || c == '\r' || c == '\n'
}

pub open spec fn is_digit_char(c: char) -> bool {
    '0' <= c && c <= '9'
}

pub open spec fn is_lower_char(c: char) -> bool {
    'a' <= c && c <= 'z'
}

pub open spec fn is_upper_char(c: char) -> bool {
    'A' <= c && c <= 'Z'
}

pub open spec fn is_alpha_char(c: char) -> bool {
    is_lower_char(c) || is_upper_char(c)
}

/// A character of a kebab-case name: lower-case letter, digit or hyphen.
pub open spec fn is_kebab_char(c: char) -> bool {
    is_lower_char(c) || is_digit_char(c) || c == '-'
}

/// A word character, as in a word boundary test: letter, digit or underscore.
pub open spec fn is_word_char(c: char) -> bool {
    is_alpha_char(c) || is_digit_char(c) || c == '_'
}

/// ASCII lower-casing of one character; other characters are unchanged.
pub open spec fn lower_char(c: char) -> char {
    if is_upper_char(c) {
        ((c as u32) + 32) as char
    } else {
        c
    }
}

pub fn space_char(c: char) -> (r: bool)
    ensures
        r == is_space_char(c),
{
    c == ' ' || c == '\t' || c == '\r' || c == '\n'
}

pub fn digit_char(c: char) -> (r: bool)
    ensures
        r == is_digit_char(c),
{
    '0' <= c && c <= '9'
}

pub fn lower_alpha_char(c: char) -> (r: bool)
    ensures
        r == is_lower_char(c),
{
    'a' <= c && c <= 'z'
}

pub fn alpha_char(c: char) -> (r: bool)
    ensures
        r == is_alpha_char(c),
{
    ('a' <= c && c <= 'z') || ('A' <= c && c <= 'Z')
}

pub fn kebab_char(c: char) -> (r: bool)
    ensures
        r == is_kebab_char(c),
{
    ('a' <= c && c <= 'z') || ('0' <= c && c <= '9') || c == '-'
}

pub fn word_char(c: char) -> (r: bool)
    ensures
        r == is_word_char(c),
{
    ('a' <= c && c <= 'z') || ('A' <= c && c <= 'Z') || ('0' <= c && c <= '9') || c == '_'
}

pub fn to_lower_char(c: char) -> (r: char)
    ensures
        r == lower_char(c),
{
    if 'A' <= c && c <= 'Z' {
        (c as u8 + 32) as char
    } else {
        c
    }
}

// ---------------------------------------------------------------------------
// Scanners: smallest index at or after `i` where the class stops.
// ---------------------------------------------------------------------------

pub open spec fn scan_spaces(s: Seq<char>, i: int) -> int
    decreases s.len() - i,
{
    if 0 <= i && i < s.len() && is_space_char(s[i]) {
        scan_spaces(s, i + 1)
    } else {
        i
    }
}

pub open spec fn scan_non_spaces(s: Seq<char>, i: int) -> int
    decreases s.len() - i,
{
    if 0 <= i && i < s.len() && !is_space_char(s[i]) {
        scan_non_spaces(s, i + 1)
    } else {
        i
    }
}

pub open spec fn scan_digits(s: Seq<char>, i: int) -> int
    decreases s.len() - i,
{
    if 0 <= i && i < s.len() && is_digit_char(s[i]) {
        scan_digits(s, i + 1)
    } else {
        i
    }
}

pub open spec fn scan_kebab(s: Seq<char>, i: int) -> int
    decreases s.len() - i,
{
    if 0 <= i && i < s.len() && is_kebab_char(s[i]) {
        scan_kebab(s, i + 1)
    } else {
        i
    }
}

/// Scans over characters other than `stop`.
pub open spec fn scan_until(s: Seq<char>, i: int, stop: char) -> int
    decreases s.len() - i,
{
    if 0 <= i && i < s.len() && s[i] != stop {
        scan_until(s, i + 1, stop)
    } else {
        i
    }
}

/// Scans forward over copies of `c`: end of the run of `c` starting at `i`.
pub open spec fn scan_over(s: Seq<char>, i: int, c: char) -> int
    decreases s.len() - i,
{
    if 0 <= i && i < s.len() && s[i] == c {
        scan_over(s, i + 1, c)
    } else {
        i
    }
}

/// Scans backwards over copies of `c`: start of the run of `c` ending just
/// before `i`.
pub open spec fn scan_back_over(s: Seq<char>, i: int, c: char) -> int
    decreases i,
{
    if 0 < i && i <= s.len() && s[i - 1] == c {
        scan_back_over(s, i - 1, c)
    } else {
        i
    }
}

/// Scans backwards over characters other than `c`.
pub open spec fn scan_back_until(s: Seq<char>, i: int, c: char) -> int
    decreases i,
{
    if 0 < i && i <= s.len() && s[i - 1] != c {
        scan_back_until(s, i - 1, c)
    } else {
        i
    }
}

/// Scans backwards over spaces: largest run of spaces ending just before `i`.
pub open spec fn scan_spaces_back(s: Seq<char>, i: int) -> int
    decreases i,
{
    if 0 < i && i <= s.len() && is_space_char(s[i - 1]) {
        scan_spaces_back(s, i - 1)
    } else {
        i
    }
}

pub proof fn lemma_scan_spaces(s: Seq<char>, i: int)
    requires
        0 <= i <= s.len(),
    ensures
        i <= scan_spaces(s, i) <= s.len(),
        scan_spaces(s, i) < s.len() ==> !is_space_char(s[scan_spaces(s, i)]),
        forall|k: int| i <= k < scan_spaces(s, i) ==> is_space_char(s[k]),
    decreases s.len() - i,
{
    if i < s.len() && is_space_char(s[i]) {
        lemma_scan_spaces(s, i + 1);
    }
}

pub proof fn lemma_scan_until(s: Seq<char>, i: int, stop: char)
    requires
        0 <= i <= s.len(),
    ensures
        i <= scan_until(s, i, stop) <= s.len(),
        scan_until(s, i, stop) < s.len() ==> s[scan_until(s, i, stop)] == stop,
        forall|k: int| i <= k < scan_until(s, i, stop) ==> s[k] != stop,
    decreases s.len() - i,
{
    if i < s.len() && s[i] != stop {
        lemma_scan_until(s, i + 1, stop);
    }
}

pub proof fn lemma_scan_spaces_back(s: Seq<char>, i: int)
    requires
        0 <= i <= s.len(),
    ensures
        0 <= scan_spaces_back(s, i) <= i,
        scan_spaces_back(s, i) > 0 ==> !is_space_char(s[scan_spaces_back(s, i) - 1]),
        forall|k: int| scan_spaces_back(s, i) <= k < i ==> is_space_char(s[k]),
    decreases i,
{
    if 0 < i && is_space_char(s[i - 1]) {
        lemma_scan_spaces_back(s, i - 1);
    }
}

pub fn skip_spaces(s: &str, i: usize) -> (r: usize)
    requires
        i <= s@.len(),
    ensures
        r == scan_spaces(s@, i as int),
        i <= r <= s@.len(),
{
    let n = s.unicode_len();
    let mut j = i;
    loop
        invariant
            i <= j <= n,
            n == s@.len(),
            scan_spaces(s@, i as int) == scan_spaces(s@, j as int),
        ensures
            j == scan_spaces(s@, i as int),
        decreases n - j,
    {
        if j == n {
            break ;
        }
        if !space_char(s.get_char(j)) {
            break ;
        }
        j = j + 1;
    }
    j
}

pub fn skip_non_spaces(s: &str, i: usize) -> (r: usize)
    requires
        i <= s@.len(),
    ensures
        r == scan_non_spaces(s@, i as int),
        i <= r <= s@.len(),
{
    let n = s.unicode_len();
    let mut j = i;
    loop
        invariant
            i <= j <= n,
            n == s@.len(),
            scan_non_spaces(s@, i as int) == scan_non_spaces(s@, j as int),
        ensures
            j == scan_non_spaces(s@, i as int),
        decreases n - j,
    {
        if j == n {
            break ;
        }
        if space_char(s.get_char(j)) {
            break ;
        }
        j = j + 1;
    }
    j
}

pub fn skip_digits(s: &str, i: usize) -> (r: usize)
    requires
        i <= s@.len(),
    ensures
        r == scan_digits(s@, i as int),
        i <= r <= s@.len(),
{
    let n = s.unicode_len();
    let mut j = i;
    loop
        invariant
            i <= j <= n,
            n == s@.len(),
            scan_digits(s@, i as int) == scan_digits(s@, j as int),
        ensures
            j == scan_digits(s@, i as int),
        decreases n - j,
    {
        if j == n {
            break ;
        }
        if !digit_char(s.get_char(j)) {
            break ;
        }
        j = j + 1;
    }
    j
}

pub fn skip_kebab(s: &str, i: usize) -> (r: usize)
    requires
        i <= s@.len(),
    ensures
        r == scan_kebab(s@, i as int),
        i <= r <= s@.len(),
{
    let n = s.unicode_len();
    let mut j = i;
    loop
        invariant
            i <= j <= n,
            n == s@.len(),
            scan_kebab(s@, i as int) == scan_kebab(s@, j as int),
        ensures
            j == scan_kebab(s@, i as int),
        decreases n - j,
    {
        if j == n {
            break ;
        }
        if !kebab_char(s.get_char(j)) {
            break ;
        }
        j = j + 1;
    }
    j
}

pub fn skip_until(s: &str, i: usize, stop: char) -> (r: usize)
    requires
        i <= s@.len(),
    ensures
        r == scan_until(s@, i as int, stop),
        i <= r <= s@.len(),
{
    let n = s.unicode_len();
    let mut j = i;
    loop
        invariant
            i <= j <= n,
            n == s@.len(),
            scan_until(s@, i as int, stop) == scan_until(s@, j as int, stop),
        ensures
            j == scan_until(s@, i as int, stop),
        decreases n - j,
    {
        if j == n {
            break ;
        }
        if s.get_char(j) == stop {
            break ;
        }
        j = j + 1;
    }
    j
}

pub fn skip_over(s: &str, i: usize, c: char) -> (r: usize)
    requires
        i <= s@.len(),
    ensures
        r == scan_over(s@, i as int, c),
        i <= r <= s@.len(),
{
    let n = s.unicode_len();
    let mut j = i;
    loop
        invariant
            i <= j <= n,
            n == s@.len(),
            scan_over(s@, i as int, c) == scan_over(s@, j as int, c),
        ensures
            j == scan_over(s@, i as int, c),
        decreases n - j,
    {
        if j == n {
            break ;
        }
        if s.get_char(j) != c {
            break ;
        }
        j = j + 1;
    }
    j
}

pub fn skip_back_over(s: &str, i: usize, c: char) -> (r: usize)
    requires
        i <= s@.len(),
    ensures
        r == scan_back_over(s@, i as int, c),
        r <= i,
{
    let mut j = i;
    loop
        invariant
            j <= i <= s@.len(),
            scan_back_over(s@, i as int, c) == scan_back_over(s@, j as int, c),
        ensures
            j == scan_back_over(s@, i as int, c),
        decreases j,
    {
        if j == 0 {
            break ;
        }
        if s.get_char(j - 1) != c {
            break ;
        }
        j = j - 1;
    }
    j
}

pub fn skip_back_until(s: &str, i: usize, c: char) -> (r: usize)
    requires
        i <= s@.len(),
    ensures
        r == scan_back_until(s@, i as int, c),
        r <= i,
{
    let mut j = i;
    loop
        invariant
            j <= i <= s@.len(),
            scan_back_until(s@, i as int, c) == scan_back_until(s@, j as int, c),
        ensures
            j == scan_back_until(s@, i as int, c),
        decreases j,
    {
        if j == 0 {
            break ;
        }
        if s.get_char(j - 1) == c {
            break ;
        }
        j = j - 1;
    }
    j
}

pub fn skip_spaces_back(s: &str, i: usize) -> (r: usize)
    requires
        i <= s@.len(),
    ensures
        r == scan_spaces_back(s@, i as int),
        r <= i,
{
    let mut j = i;
    loop
        invariant
            j <= i <= s@.len(),
            scan_spaces_back(s@, i as int) == scan_spaces_back(s@, j as int),
        ensures
            j == scan_spaces_back(s@, i as int),
        decreases j,
    {
        if j == 0 {
            break ;
        }
        if !space_char(s.get_char(j - 1)) {
            break ;
        }
        j = j - 1;
    }
    j
}

// ---------------------------------------------------------------------------
// Equality, prefix and substring tests
// ---------------------------------------------------------------------------

pub fn str_eq(a: &str, b: &str) -> (r: bool)
    ensures
        r == (a@ == b@),
{
    let n = a.unicode_len();
    if n != b.unicode_len() {
        proof {
            assert(a@ =~= b@ ==> a@.len() == b@.len());
        }
        return false;
    }
    let mut j: usize = 0;
    loop
        invariant
            j <= n,
            n == a@.len(),
            n == b@.len(),
            forall|k: int| 0 <= k < j ==> a@[k] == b@[k],
        ensures
            (j == n && forall|k: int| 0 <= k < j ==> a@[k] == b@[k]) || a@ != b@,
        decreases n - j,
    {
        if j == n {
            break ;
        }
        if a.get_char(j) != b.get_char(j) {
            proof {
                assert(a@[j as int] != b@[j as int]);
            }
            break ;
        }
        j = j + 1;
    }
    if j == n {
        proof {
            assert(a@ =~= b@);
        }
        true
    } else {
        false
    }
}

/// The pattern occurs at exactly position `i`.
pub open spec fn matches_at(s: Seq<char>, i: int, pat: Seq<char>) -> bool {
    0 <= i && i + pat.len() <= s.len() && s.subrange(i, i + pat.len()) == pat
}

pub open spec fn spec_contains(s: Seq<char>, pat: Seq<char>) -> bool {
    exists|i: int| matches_at(s, i, pat)
}

pub open spec fn spec_starts_with(s: Seq<char>, pat: Seq<char>) -> bool {
    matches_at(s, 0, pat)
}

pub fn match_at(s: &str, i: usize, pat: &str) -> (r: bool)
    requires
        i <= s@.len(),
    ensures
        r == matches_at(s@, i as int, pat@),
{
    let m = pat.unicode_len();
    let n = s.unicode_len();
    if m > n - i {
        return false;
    }
    let mut j: usize = 0;
    loop
        invariant
            j <= m,
            m == pat@.len(),
            n == s@.len(),
            i + m <= n,
            forall|k: int| 0 <= k < j ==> s@[i + k] == pat@[k],
        ensures
            (j == m && forall|k: int| 0 <= k < j ==> s@[i + k] == pat@[k]) || s@.subrange(
                i as int,
                i + m,
            ) != pat@,
        decreases m - j,
    {
        if j == m {
            break ;
        }
        if s.get_char(i + j) != pat.get_char(j) {
            proof {
                assert(s@.subrange(i as int, i + m as int)[j as int] == s@[i + j]);
            }
            break ;
        }
        j = j + 1;
    }
    if j == m {
        proof {
            assert(s@.subrange(i as int, i + m as int) =~= pat@);
        }
        true
    } else {
        false
    }
}

pub fn starts_with_str(s: &str, pat: &str) -> (r: bool)
    ensures
        r == spec_starts_with(s@, pat@),
{
    match_at(s, 0, pat)
}

/// Smallest position at which the pattern occurs, if any.
pub fn find_str(s: &str, pat: &str) -> (r: Option<usize>)
    ensures
        match r {
            Some(i) => matches_at(s@, i as int, pat@) && forall|k: int|
                0 <= k < i ==> !matches_at(s@, k, pat@),
            None => !spec_contains(s@, pat@),
        },
{
    let n = s.unicode_len();
    let m = pat.unicode_len();
    if m == 0 {
        proof {
            assert(s@.subrange(0, 0) =~= pat@);
        }
        return Some(0);
    }
    if m > n {
        proof {
            assert(forall|i: int| matches_at(s@, i, pat@) ==> i + pat@.len() <= s@.len());
        }
        return None;
    }
    let mut i: usize = 0;
    loop
        invariant
            i <= n - m + 1,
            1 <= m <= n,
            n == s@.len(),
            m == pat@.len(),
            forall|k: int| 0 <= k < i ==> !matches_at(s@, k, pat@),
        ensures
            (i <= n - m && matches_at(s@, i as int, pat@) && forall|k: int|
                0 <= k < i ==> !matches_at(s@, k, pat@)) || (!spec_contains(s@, pat@) && i == n - m
                + 1),
        decreases n - m + 1 - i,
    {
        if i > n - m {
            proof {
                assert(forall|k: int|
                    matches_at(s@, k, pat@) ==> 0 <= k <= s@.len() - pat@.len() && !matches_at(
                        s@,
                        k,
                        pat@,
                    ));
            }
            break ;
        }
        if match_at(s, i, pat) {
            break ;
        }
        i = i + 1;
    }
    if i <= n - m {
        Some(i)
    } else {
        None
    }
}

pub fn contains_str(s: &str, pat: &str) -> (r: bool)
    ensures
        r == spec_contains(s@, pat@),
{
    match find_str(s, pat) {
        Some(_) => true,
        None => false,
    }
}

pub fn contains_char(s: &str, c: char) -> (r: bool)
    ensures
        r == s@.contains(c),
{
    let n = s.unicode_len();
    let mut j: usize = 0;
    loop
        invariant
            j <= n,
            n == s@.len(),
            forall|k: int| 0 <= k < j ==> s@[k] != c,
        ensures
            (j < n && s@[j as int] == c) || (j == n && forall|k: int| 0 <= k < j ==> s@[k] != c),
        decreases n - j,
    {
        if j == n {
            break ;
        }
        if s.get_char(j) == c {
            break ;
        }
        j = j + 1;
    }
    if j < n {
        proof {
            assert(s@.contains(c));
        }
        true
    } else {
        proof {
            assert(forall|k: int| 0 <= k < s@.len() ==> s@[k] != c);
        }
        false
    }
}

// ---------------------------------------------------------------------------
// Building strings
// ---------------------------------------------------------------------------

pub open spec fn spec_lower(s: Seq<char>) -> Seq<char> {
    s.map_values(|c: char| lower_char(c))
}

pub fn lowercase_str(s: &str) -> (r: String)
    ensures
        r@ == spec_lower(s@),
{
    let n = s.unicode_len();
    let mut r = String::new();
    let mut j: usize = 0;
    while j < n
        invariant
            j <= n,
            n == s@.len(),
            r@ =~= spec_lower(s@).subrange(0, j as int),
        decreases n - j,
    {
        r.push(to_lower_char(s.get_char(j)));
        j = j + 1;
    }
    proof {
        assert(r@ =~= spec_lower(s@));
    }
    r
}

/// Copy of the character range `[from, to)` as an owned string.
pub fn substring(s: &str, from: usize, to: usize) -> (r: String)
    requires
        from <= to <= s@.len(),
    ensures
        r@ == s@.subrange(from as int, to as int),
{
    s.substring_char(from, to).to_owned()
}

// ---------------------------------------------------------------------------
// Trimming
// ---------------------------------------------------------------------------

pub open spec fn spec_trim(s: Seq<char>) -> Seq<char> {
    let a = scan_spaces(s, 0);
    if a == s.len() {
        Seq::empty()
    } else {
        s.subrange(a, scan_spaces_back(s, s.len() as int))
    }
}

pub fn trim_str(s: &str) -> (r: String)
    ensures
        r@ == spec_trim(s@),
{
    let n = s.unicode_len();
    let a = skip_spaces(s, 0);
    if a == n {
        String::new()
    } else {
        let b = skip_spaces_back(s, n);
        proof {
            lemma_scan_spaces(s@, 0);
            lemma_scan_spaces_back(s@, n as int);
            if b <= a {
                assert(is_space_char(s@[a as int]));
            }
        }
        substring(s, a, b)
    }
}

/// The whole string is spaces, or is empty.
pub fn is_blank(s: &str) -> (r: bool)
    ensures
        r == (spec_trim(s@).len() == 0),
{
    let n = s.unicode_len();
    let a = skip_spaces(s, 0);
    if a == n {
        true
    } else {
        proof {
            lemma_scan_spaces(s@, 0);
            lemma_scan_spaces_back(s@, n as int);
            let b = scan_spaces_back(s@, n as int);
            if b <= a {
                assert(is_space_char(s@[a as int]));
            }
        }
        false
    }
}

// ---------------------------------------------------------------------------
// Line splitting
// ---------------------------------------------------------------------------

/// A line with a trailing carriage return stripped.
pub open spec fn strip_cr(l: Seq<char>) -> Seq<char> {
    if l.len() > 0 && l.last() == '\r' {
        l.drop_last()
    } else {
        l
    }
}

/// The lines of `s[i..]`, split on newline characters, each without its
/// line break; a trailing newline does not produce a final empty line.
pub open spec fn spec_lines_from(s: Seq<char>, i: int) -> Seq<Seq<char>>
    decreases s.len() - i,
    via spec_lines_from_dec
{
    if i < 0 || i >= s.len() {
        Seq::empty()
    } else {
        let j = scan_until(s, i, '\n');
        if j >= s.len() {
            seq![strip_cr(s.subrange(i, s.len() as int))]
        } else {
            seq![strip_cr(s.subrange(i, j))] + spec_lines_from(s, j + 1)
        }
    }
}

#[via_fn]
proof fn spec_lines_from_dec(s: Seq<char>, i: int) {
    if 0 <= i && i < s.len() {
        lemma_scan_until(s, i, '\n');
    }
}

pub open spec fn spec_lines(s: Seq<char>) -> Seq<Seq<char>> {
    spec_lines_from(s, 0)
}

fn split_lines_from(s: &str, i: usize) -> (r: Vec<String>)
    requires
        i <= s@.len(),
    ensures
        r@.map_values(|l: String| l@) == spec_lines_from(s@, i as int),
    decreases s@.len() - i,
{
    let n = s.unicode_len();
    if i >= n {
        let r: Vec<String> = Vec::new();
        proof {
            assert(r@.map_values(|l: String| l@) =~= spec_lines_from(s@, i as int));
        }
        return r;
    }
    let j = skip_until(s, i, '\n');
    let line_end = if j > i && s.get_char(j - 1) == '\r' {
        j - 1
    } else {
        j
    };
    let line = substring(s, i, line_end);
    proof {
        if j > i && s@[j - 1] == '\r' {
            assert(s@.subrange(i as int, j as int).last() == s@[j - 1]);
            assert(s@.subrange(i as int, j as int).drop_last() =~= s@.subrange(
                i as int,
                j - 1 as int,
            ));
        } else if j > i {
            assert(s@.subrange(i as int, j as int).last() == s@[j - 1]);
        }
        assert(line@ =~= strip_cr(s@.subrange(i as int, j as int)));
    }
    if j >= n {
        let mut r: Vec<String> = Vec::new();
        r.push(line);
        proof {
            assert(r@.map_values(|l: String| l@) =~= spec_lines_from(s@, i as int));
        }
        r
    } else {
        let mut rest = split_lines_from(s, j + 1);
        rest.insert(0, line);
        proof {
            assert(rest@.map_values(|l: String| l@) =~= spec_lines_from(s@, i as int));
        }
        rest
    }
}

pub fn split_lines(s: &str) -> (r: Vec<String>)
    ensures
        r@.map_values(|l: String| l@) == spec_lines(s@),
{
    split_lines_from(s, 0)
}

} // verus!
