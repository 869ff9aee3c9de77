//! Regular-expression searches, made by the `regex` crate.
//!
//! Which text a regular expression matches is the crate's own algorithm;
//! in general it is not restated here. Each search is named by a spec
//! function of the pattern and the haystack, and the facts stated beside the
//! names are those that the crate's source shows directly. For the offset
//! pattern `0x[a-f0-9]+`, whose meaning the crate documents (leftmost-first
//! matching, greedy repetition, a class of two ASCII ranges), the match is
//! stated exactly by `first_hex_offset`.

use vstd::prelude::*;

use crate::constants::OFFSETS_REGEX;
use crate::text::{has_substring, occurs_at};

verus! {

/// A character of the class `[a-f0-9]`.
pub open spec fn is_offset_digit(c: char) -> bool {
    ('0' <= c <= '9') || ('a' <= c <= 'f')
}

/// The end of the run of offset digits in `s` that starts at `j`.
pub open spec fn hex_run_end(s: Seq<char>, j: int) -> int
    decreases s.len() - j,
{
    if 0 <= j < s.len() && is_offset_digit(s[j]) {
        hex_run_end(s, j + 1)
    } else {
        j
    }
}

/// `0x` followed by an offset digit starts at position `i` of `s`.
pub open spec fn hex_offset_at(s: Seq<char>, i: int) -> bool {
    &&& 0 <= i
    &&& i + 2 < s.len()
    &&& s[i] == '0'
    &&& s[i + 1] == 'x'
    &&& is_offset_digit(s[i + 2])
}

/// The leftmost text of `s`, from position `i` on, that `0x[a-f0-9]+`
/// matches: the first `0x` followed by an offset digit, with the longest run
/// of offset digits after it; `None` where there is none.
pub open spec fn first_hex_offset_from(s: Seq<char>, i: int) -> Option<Seq<char>>
    decreases s.len() - i,
{
    if i < 0 || i + 2 >= s.len() {
        None
    } else if hex_offset_at(s, i) {
        Some(s.subrange(i, hex_run_end(s, i + 2)))
    } else {
        first_hex_offset_from(s, i + 1)
    }
}

/// The text of `s` that `0x[a-f0-9]+` matches first (what `Regex::captures`
/// gives as group 0).
pub open spec fn first_hex_offset(s: Seq<char>) -> Option<Seq<char>> {
    first_hex_offset_from(s, 0)
}

/// `o` has the shape of an offset: `0x` and then one offset digit or more.
pub open spec fn is_hex_offset(o: Seq<char>) -> bool {
    &&& o.len() >= 3
    &&& o[0] == '0'
    &&& o[1] == 'x'
    &&& forall|k: int| 2 <= k < o.len() ==> is_offset_digit(#[trigger] o[k])
}

proof fn lemma_hex_run_end(s: Seq<char>, j: int)
    requires
        0 <= j <= s.len(),
    ensures
        j <= hex_run_end(s, j) <= s.len(),
        forall|k: int| j <= k < hex_run_end(s, j) ==> is_offset_digit(#[trigger] s[k]),
    decreases s.len() - j,
{
    if j < s.len() && is_offset_digit(s[j]) {
        lemma_hex_run_end(s, j + 1);
    }
}

/// What the offset pattern finds is a piece of the text with the shape of
/// an offset.
pub proof fn lemma_first_hex_offset(s: Seq<char>, i: int)
    requires
        0 <= i,
    ensures
        first_hex_offset_from(s, i) matches Some(o) ==> is_hex_offset(o) && has_substring(s, o),
    decreases s.len() - i,
{
    if i + 2 < s.len() {
        if hex_offset_at(s, i) {
            lemma_hex_run_end(s, i + 2);
            lemma_hex_run_end(s, i + 3);
            let e = hex_run_end(s, i + 2);
            assert(e == hex_run_end(s, i + 3));
            let o = s.subrange(i, e);
            assert(o[0] == s[i] && o[1] == s[i + 1]);
            assert forall|k: int| 2 <= k < o.len() implies is_offset_digit(#[trigger] o[k]) by {
                assert(o[k] == s[i + k]);
            }
            assert(occurs_at(s, o, i));
        } else {
            lemma_first_hex_offset(s, i + 1);
        }
    }
}

/// What compiling `pattern` with `regex::Regex::new` and searching
/// `haystack` with `Regex::captures` gives: `None` when the pattern does not
/// compile; otherwise the text of the leftmost-first match, or `None` when
/// there is no match.
pub uninterp spec fn regex_first_match(pattern: Seq<char>, haystack: Seq<char>) -> Option<Option<Seq<char>>>;

/// What compiling `pattern` with `regex::Regex::new` and walking
/// `Regex::captures_iter` over `haystack` gives: `None` when the pattern
/// does not compile; otherwise, for each successive non-overlapping match,
/// the text of each capture group by index (group 0 is the whole match),
/// `None` for a group that took no part in the match.
pub uninterp spec fn regex_all_captures(pattern: Seq<char>, haystack: Seq<char>) -> Option<Seq<Seq<Option<Seq<char>>>>>;

/// Calls `regex::Regex::new(pattern)` and then `Regex::captures(haystack)`,
/// keeping the text of group 0 (`Captures::get(0)`, which the crate
/// documents as always present). The contract claims that the outcome is
/// `regex_first_match(pattern, haystack)` and that a matched text is a
/// piece of the haystack (`Match::as_str` slices the haystack). For the
/// offset pattern `0x[a-f0-9]+` it claims what the crate documents of that
/// pattern: it compiles, and the match is the leftmost one, with the
/// repetition taken as long as it goes (`first_hex_offset`).
#[verifier::external_body]
pub fn first_match(pattern: &str, haystack: &str) -> (r: Option<Option<String>>)
    ensures
        r.deep_view() == regex_first_match(pattern@, haystack@),
        r matches Some(Some(m)) ==> has_substring(haystack@, m@),
        pattern@ == OFFSETS_REGEX@ ==> r.deep_view() == Some(first_hex_offset(haystack@)),
{
    match regex::Regex::new(pattern) {
        Ok(re) => Some(re.captures(haystack).map(|c| c[0].to_string())),
        Err(_) => None,
    }
}

/// Calls `regex::Regex::new(pattern)` and then walks
/// `Regex::captures_iter(haystack)`, keeping of each match the text of every
/// group (`Captures::get` for each index below `Captures::len`). The
/// contract claims that the outcome is `regex_all_captures(pattern,
/// haystack)` and that every group's text is a piece of the haystack
/// (`Match::as_str` slices the haystack).
#[verifier::external_body]
pub fn all_captures(pattern: &str, haystack: &str) -> (r: Option<Vec<Vec<Option<String>>>>)
    ensures
        r.deep_view() == regex_all_captures(pattern@, haystack@),
        r matches Some(caps) ==> forall|i: int, j: int|
            0 <= i < caps@.len() && 0 <= j < caps@[i]@.len() && #[trigger] caps@[i]@[j] is Some
                ==> has_substring(haystack@, caps@[i]@[j]->0@),
{
    match regex::Regex::new(pattern) {
        Ok(re) => Some(
            re.captures_iter(haystack).map(
                |c| (0..c.len()).map(|i| c.get(i).map(|m| m.as_str().to_string())).collect(),
            ).collect(),
        ),
        Err(_) => None,
    }
}

} // verus!
