//! Character-level text handling: the views, searches and cuts of strings
//! that the rest of the library works with.
//!
//! Strings are inspected as sequences of `char`; a cut of a string is given
//! by a half-open range of character positions.

use vstd::prelude::*;

verus! {

// ---------------------------------------------------------------------------
// Conversions between `str`/`String` and characters
// ---------------------------------------------------------------------------

/// The characters of `s`, in order.
pub fn chars_of(s: &str) -> (r: Vec<char>)
    ensures
        r@ == s@,
{
    let mut r: Vec<char> = Vec::new();
    let ghost full = s@;
    for c in it: s.chars()
        invariant
            it.seq() == full,
            r@ == it.seq().take(it.index()),
    {
        r.push(c);
    }
    r
}

/// The string made of `chars`: `String`'s `FromIterator<char>`, which the
/// standard library documents as concatenating the characters in order.
#[verifier::external_body]
pub(crate) fn string_of(chars: &[char]) -> (r: String)
    ensures
        r@ == chars@,
{
    chars.iter().collect()
}

/// The string made of the characters of `s` in positions `from..to`.
pub fn cut(s: &[char], from: usize, to: usize) -> (r: String)
    requires
        from <= to <= s@.len(),
    ensures
        r@ == s@.subrange(from as int, to as int),
{
    string_of(&s[from..to])
}

// ---------------------------------------------------------------------------
// Substrings and prefixes
// ---------------------------------------------------------------------------

/// `needle` occurs in `hay` starting at position `i`.
pub open spec fn occurs_at(hay: Seq<char>, needle: Seq<char>, i: int) -> bool {
    &&& 0 <= i
    &&& i + needle.len() <= hay.len()
    &&& hay.subrange(i, i + needle.len()) == needle
}

/// `needle` occurs somewhere in `hay` (what `str::contains` decides for a
/// string pattern). The empty string occurs in every string.
pub open spec fn has_substring(hay: Seq<char>, needle: Seq<char>) -> bool {
    exists|i: int| occurs_at(hay, needle, i)
}

/// `p` is a prefix of `s` (what `str::starts_with` decides).
pub open spec fn has_prefix(s: Seq<char>, p: Seq<char>) -> bool {
    occurs_at(s, p, 0)
}

/// Decides whether `needle` occurs in `hay` at position `i`.
pub fn matches_at(hay: &[char], needle: &[char], i: usize) -> (r: bool)
    ensures
        r == occurs_at(hay@, needle@, i as int),
{
    if i > hay.len() || needle.len() > hay.len() - i {
        return false;
    }
    let n: usize = hay.len();
    let mut k: usize = 0;
    while k < needle.len()
        invariant
            n == hay@.len(),
            i + needle@.len() <= hay@.len(),
            k <= needle@.len(),
            forall|j: int| 0 <= j < k ==> hay@[i + j] == needle@[j],
        decreases needle@.len() - k,
    {
        assert(i + k < hay@.len());
        if hay[i + k] != needle[k] {
            assert(hay@.subrange(i as int, i + needle@.len())[k as int] != needle@[k as int]);
            return false;
        }
        k = k + 1;
    }
    assert(hay@.subrange(i as int, i + needle@.len()) =~= needle@);
    true
}

/// Decides whether `needle` occurs anywhere in `hay`.
pub fn contains(hay: &[char], needle: &[char]) -> (r: bool)
    ensures
        r == has_substring(hay@, needle@),
{
    let mut i: usize = 0;
    while i < hay.len()
        invariant
            i <= hay@.len(),
            forall|j: int| 0 <= j < i ==> !occurs_at(hay@, needle@, j),
        decreases hay@.len() - i,
    {
        if matches_at(hay, needle, i) {
            return true;
        }
        i = i + 1;
    }
    let at_end = matches_at(hay, needle, i);
    assert(at_end || forall|j: int| !occurs_at(hay@, needle@, j));
    at_end
}

/// Decides whether `p` is a prefix of `s`.
pub fn starts_with(s: &[char], p: &[char]) -> (r: bool)
    ensures
        r == has_prefix(s@, p@),
{
    matches_at(s, p, 0)
}

// ---------------------------------------------------------------------------
// Whitespace and trimming
// ---------------------------------------------------------------------------

/// The characters with the Unicode `White_Space` property, which is what
/// `char::is_whitespace` (and so `str::trim`) tests.
pub open spec fn is_space(c: char) -> bool {
    ||| '\u{9}' <= c <= '\u{d}'
    ||| c == ' '
    ||| c == '\u{85}'
    ||| c == '\u{a0}'
    ||| c == '\u{1680}'
    ||| '\u{2000}' <= c <= '\u{200a}'
    ||| c == '\u{2028}'
    ||| c == '\u{2029}'
    ||| c == '\u{202f}'
    ||| c == '\u{205f}'
    ||| c == '\u{3000}'
}

/// Decides `is_space(c)`.
pub fn is_space_char(c: char) -> (r: bool)
    ensures
        r == is_space(c),
{
    ('\u{9}' <= c && c <= '\u{d}') || c == ' ' || c == '\u{85}' || c == '\u{a0}' || c == '\u{1680}'
        || ('\u{2000}' <= c && c <= '\u{200a}') || c == '\u{2028}' || c == '\u{2029}' || c
        == '\u{202f}' || c == '\u{205f}' || c == '\u{3000}'
}

/// `s` without its leading whitespace.
pub open spec fn trim_start(s: Seq<char>) -> Seq<char>
    decreases s.len(),
{
    if s.len() > 0 && is_space(s[0]) {
        trim_start(s.drop_first())
    } else {
        s
    }
}

/// `s` without its trailing whitespace.
pub open spec fn trim_end(s: Seq<char>) -> Seq<char>
    decreases s.len(),
{
    if s.len() > 0 && is_space(s.last()) {
        trim_end(s.drop_last())
    } else {
        s
    }
}

/// `s` without leading and trailing whitespace (`str::trim`).
pub open spec fn trim(s: Seq<char>) -> Seq<char> {
    trim_end(trim_start(s))
}

/// Skipping the first `a` characters, all of them whitespace and followed by
/// no whitespace, is `trim_start`.
pub proof fn lemma_trim_start_at(s: Seq<char>, a: int)
    requires
        0 <= a <= s.len(),
        forall|k: int| 0 <= k < a ==> is_space(#[trigger] s[k]),
        a < s.len() ==> !is_space(s[a]),
    ensures
        trim_start(s) == s.subrange(a, s.len() as int),
    decreases a,
{
    if a == 0 {
        assert(s.subrange(0, s.len() as int) =~= s);
    } else {
        let t = s.drop_first();
        assert forall|k: int| 0 <= k < a - 1 implies is_space(#[trigger] t[k]) by {
            assert(t[k] == s[k + 1]);
        }
        lemma_trim_start_at(t, a - 1);
        assert(t.subrange(a - 1, t.len() as int) =~= s.subrange(a, s.len() as int));
    }
}

/// Dropping the last `s.len() - b` characters, all of them whitespace and
/// preceded by no whitespace, is `trim_end`.
pub proof fn lemma_trim_end_at(s: Seq<char>, b: int)
    requires
        0 <= b <= s.len(),
        forall|k: int| b <= k < s.len() ==> is_space(#[trigger] s[k]),
        b > 0 ==> !is_space(s[b - 1]),
    ensures
        trim_end(s) == s.subrange(0, b),
    decreases s.len() - b,
{
    if b == s.len() {
        assert(s.subrange(0, b) =~= s);
    } else {
        let t = s.drop_last();
        assert forall|k: int| b <= k < t.len() implies is_space(#[trigger] t[k]) by {
            assert(t[k] == s[k]);
        }
        lemma_trim_end_at(t, b);
        assert(t.subrange(0, b) =~= s.subrange(0, b));
    }
}

/// `trim_start(s)` is a suffix of `s` that does not start with whitespace.
proof fn lemma_trim_start_shape(s: Seq<char>)
    ensures
        trim_start(s).len() <= s.len(),
        trim_start(s) == s.subrange(s.len() - trim_start(s).len(), s.len() as int),
        trim_start(s).len() > 0 ==> !is_space(trim_start(s)[0]),
    decreases s.len(),
{
    if s.len() > 0 && is_space(s[0]) {
        lemma_trim_start_shape(s.drop_first());
        let t = trim_start(s.drop_first());
        assert(s.drop_first().subrange(s.len() - 1 - t.len(), s.len() - 1) =~= s.subrange(
            s.len() - t.len(),
            s.len() as int,
        ));
    } else {
        assert(s.subrange(0, s.len() as int) =~= s);
    }
}

/// `trim_end(s)` is a prefix of `s` that does not end with whitespace.
proof fn lemma_trim_end_shape(s: Seq<char>)
    ensures
        trim_end(s).len() <= s.len(),
        trim_end(s) == s.subrange(0, trim_end(s).len() as int),
        trim_end(s).len() > 0 ==> !is_space(trim_end(s).last()),
    decreases s.len(),
{
    if s.len() > 0 && is_space(s.last()) {
        lemma_trim_end_shape(s.drop_last());
        let t = trim_end(s.drop_last());
        assert(s.drop_last().subrange(0, t.len() as int) =~= s.subrange(0, t.len() as int));
    } else {
        assert(s.subrange(0, s.len() as int) =~= s);
    }
}

/// Trimming twice is trimming once: a trimmed text neither starts nor ends
/// with whitespace.
pub proof fn law_trim_idempotent(s: Seq<char>)
    ensures
        trim(trim(s)) == trim(s),
        trim(s).len() > 0 ==> !is_space(trim(s)[0]) && !is_space(trim(s).last()),
{
    let u = trim_start(s);
    let t = trim_end(u);
    lemma_trim_start_shape(s);
    lemma_trim_end_shape(u);
    if t.len() > 0 {
        assert(t[0] == u[0]);
        assert(trim_start(t) == t);
        assert(trim_end(t) == t);
    } else {
        assert(trim_start(t) == t);
    }
}

/// The positions `(a, b)` such that `s[a..b]` is `trim(s)`.
pub fn trim_bounds(s: &[char]) -> (r: (usize, usize))
    ensures
        r.0 <= r.1 <= s@.len(),
        s@.subrange(r.0 as int, r.1 as int) == trim(s@),
{
    let n: usize = s.len();
    let mut a: usize = 0;
    while a < n && is_space_char(s[a])
        invariant
            n == s@.len(),
            a <= n,
            forall|k: int| 0 <= k < a ==> is_space(#[trigger] s@[k]),
        decreases n - a,
    {
        a = a + 1;
    }
    proof {
        lemma_trim_start_at(s@, a as int);
    }
    let mut b: usize = n;
    while b > a && is_space_char(s[b - 1])
        invariant
            n == s@.len(),
            a <= b <= n,
            forall|k: int| b <= k < n ==> is_space(#[trigger] s@[k]),
        decreases b,
    {
        b = b - 1;
    }
    proof {
        let t = s@.subrange(a as int, n as int);
        assert forall|k: int| b - a <= k < t.len() implies is_space(#[trigger] t[k]) by {
            assert(t[k] == s@[a + k]);
        }
        if b > a {
            assert(t[b - a - 1] == s@[b - 1]);
        }
        lemma_trim_end_at(t, b - a);
        assert(t.subrange(0, b - a) =~= s@.subrange(a as int, b as int));
    }
    (a, b)
}

/// `str::trim`: `s` without leading and trailing whitespace.
pub fn trimmed(s: &[char]) -> (r: Vec<char>)
    ensures
        r@ == trim(s@),
{
    let (a, b) = trim_bounds(s);
    vstd::slice::slice_to_vec(&s[a..b])
}

// ---------------------------------------------------------------------------
// Lines
// ---------------------------------------------------------------------------

/// The position of the first `'\n'` in `s` at or after `j`, or `s.len()`
/// where there is none.
pub open spec fn next_newline(s: Seq<char>, j: int) -> int
    decreases s.len() - j,
{
    if j >= s.len() {
        s.len() as int
    } else if s[j] == '\n' {
        j
    } else {
        next_newline(s, j + 1)
    }
}

/// A line without the `'\r'` of a `"\r\n"` line ending.
pub open spec fn strip_cr(line: Seq<char>) -> Seq<char> {
    if line.len() > 0 && line.last() == '\r' {
        line.drop_last()
    } else {
        line
    }
}

/// The lines of `s` from position `start` on.
pub open spec fn lines_from(s: Seq<char>, start: int) -> Seq<Seq<char>>
    decreases s.len() - start,
{
    if start < 0 || start >= s.len() {
        seq![]
    } else {
        let e = next_newline(s, start);
        proof {
            lemma_next_newline(s, start);
        }
        if e >= s.len() {
            seq![s.subrange(start, s.len() as int)]
        } else {
            seq![strip_cr(s.subrange(start, e))] + lines_from(s, e + 1)
        }
    }
}

/// The lines of `s`, as `str::lines` gives them: `s` is cut at each `'\n'`,
/// a `'\r'` just before a `'\n'` is dropped with it, and a final line
/// ending adds no empty line.
pub open spec fn lines(s: Seq<char>) -> Seq<Seq<char>> {
    lines_from(s, 0)
}

/// Every position from `j` up to `next_newline(s, j)` holds no newline, and
/// that position holds one unless it is the end.
pub proof fn lemma_next_newline(s: Seq<char>, j: int)
    requires
        0 <= j <= s.len(),
    ensures
        j <= next_newline(s, j) <= s.len(),
        next_newline(s, j) < s.len() ==> s[next_newline(s, j)] == '\n',
        forall|k: int| j <= k < next_newline(s, j) ==> s[k] != '\n',
    decreases s.len() - j,
{
    if j < s.len() && s[j] != '\n' {
        lemma_next_newline(s, j + 1);
    }
}

/// No line of a text holds a newline.
pub proof fn law_lines_hold_no_newline(s: Seq<char>)
    ensures
        forall|i: int| 0 <= i < lines(s).len() ==> !(#[trigger] lines(s)[i]).contains('\n'),
{
    lemma_lines_from_no_newline(s, 0);
}

proof fn lemma_lines_from_no_newline(s: Seq<char>, start: int)
    ensures
        forall|i: int|
            0 <= i < lines_from(s, start).len() ==> !(#[trigger] lines_from(s, start)[i]).contains(
                '\n',
            ),
    decreases s.len() - start,
{
    if 0 <= start < s.len() {
        lemma_next_newline(s, start);
        let e = next_newline(s, start);
        let ls = lines_from(s, start);
        let raw = s.subrange(start, e);
        assert(!raw.contains('\n')) by {
            if raw.contains('\n') {
                let k = choose|k: int| 0 <= k < raw.len() && raw[k] == '\n';
                assert(s[start + k] == '\n');
            }
        }
        if e >= s.len() {
            assert(ls[0] == raw);
        } else {
            lemma_lines_from_no_newline(s, e + 1);
            let first = strip_cr(raw);
            assert(!first.contains('\n')) by {
                if first.contains('\n') {
                    let k = choose|k: int| 0 <= k < first.len() && first[k] == '\n';
                    assert(raw[k] == '\n');
                }
            }
            assert forall|i: int| 0 <= i < ls.len() implies !(#[trigger] ls[i]).contains('\n') by {
                if i > 0 {
                    assert(ls[i] == lines_from(s, e + 1)[i - 1]);
                }
            }
        }
    }
}

/// Finds `next_newline(s, j)`.
pub fn find_newline(s: &[char], j: usize) -> (r: usize)
    requires
        j <= s@.len(),
    ensures
        r == next_newline(s@, j as int),
{
    let n: usize = s.len();
    let mut k: usize = j;
    while k < n && s[k] != '\n'
        invariant
            n == s@.len(),
            j <= k <= n,
            next_newline(s@, j as int) == next_newline(s@, k as int),
        decreases n - k,
    {
        k = k + 1;
    }
    k
}

/// The position ranges of the lines of `s` (`str::lines`): the line `k` is
/// `s[r[k].0..r[k].1]`.
pub fn line_bounds(s: &[char]) -> (r: Vec<(usize, usize)>)
    ensures
        r@.len() == lines(s@).len(),
        forall|k: int|
            0 <= k < r@.len() ==> {
                &&& #[trigger] r@[k].0 <= r@[k].1 <= s@.len()
                &&& s@.subrange(r@[k].0 as int, r@[k].1 as int) == lines(s@)[k]
            },
{
    let n: usize = s.len();
    let mut r: Vec<(usize, usize)> = Vec::new();
    let mut start: usize = 0;
    let ghost mut done: Seq<Seq<char>> = seq![];
    while start < n
        invariant
            n == s@.len(),
            start <= n,
            done.len() == r@.len(),
            done + lines_from(s@, start as int) == lines(s@),
            forall|k: int|
                0 <= k < r@.len() ==> {
                    &&& #[trigger] r@[k].0 <= r@[k].1 <= s@.len()
                    &&& s@.subrange(r@[k].0 as int, r@[k].1 as int) == done[k]
                },
        decreases n - start,
    {
        let e = find_newline(s, start);
        proof {
            lemma_next_newline(s@, start as int);
        }
        let ghost line = if e >= n {
            s@.subrange(start as int, n as int)
        } else {
            strip_cr(s@.subrange(start as int, e as int))
        };
        let mut stop: usize = e;
        if e < n && e > start && s[e - 1] == '\r' {
            stop = e - 1;
        }
        assert(s@.subrange(start as int, stop as int) =~= line);
        r.push((start, stop));
        proof {
            assert(lines_from(s@, start as int) == seq![line] + lines_from(s@, e + 1));
            assert(done.push(line) + lines_from(s@, e + 1) =~= done + lines_from(s@, start as int));
            done = done.push(line);
        }
        if e >= n {
            start = n;
        } else {
            start = e + 1;
        }
    }
    assert(done + lines_from(s@, start as int) =~= done);
    r
}

// ---------------------------------------------------------------------------
// Removing a pattern
// ---------------------------------------------------------------------------

/// `s` with every occurrence of `pat` removed, the occurrences taken from
/// left to right without overlap: `str::replace(pat, "")`. An empty `pat`
/// leaves `s` as it is.
pub open spec fn remove_all(s: Seq<char>, pat: Seq<char>) -> Seq<char>
    decreases s.len(),
{
    if pat.len() == 0 || s.len() == 0 {
        s
    } else if has_prefix(s, pat) {
        remove_all(s.subrange(pat.len() as int, s.len() as int), pat)
    } else {
        seq![s[0]] + remove_all(s.drop_first(), pat)
    }
}

/// Computes `remove_all(s, pat)`.
pub fn removed_all(s: &[char], pat: &[char]) -> (r: Vec<char>)
    ensures
        r@ == remove_all(s@, pat@),
{
    let n: usize = s.len();
    if pat.len() == 0 {
        return vstd::slice::slice_to_vec(s);
    }
    let mut out: Vec<char> = Vec::new();
    let mut i: usize = 0;
    assert(s@.subrange(0, n as int) =~= s@);
    while i < n
        invariant
            n == s@.len(),
            pat@.len() > 0,
            i <= n,
            out@ + remove_all(s@.subrange(i as int, n as int), pat@) == remove_all(s@, pat@),
        decreases n - i,
    {
        let ghost rest = s@.subrange(i as int, n as int);
        if matches_at(s, pat, i) {
            proof {
                assert(rest.subrange(0, pat@.len() as int) =~= s@.subrange(i as int, i + pat@.len()));
                assert(rest.subrange(pat@.len() as int, rest.len() as int) =~= s@.subrange(
                    i + pat@.len(),
                    n as int,
                ));
            }
            i = i + pat.len();
        } else {
            proof {
                if has_prefix(rest, pat@) {
                    assert(rest.subrange(0, pat@.len() as int) =~= s@.subrange(
                        i as int,
                        i + pat@.len(),
                    ));
                }
                assert(rest.drop_first() =~= s@.subrange(i + 1, n as int));
                assert(out@.push(s@[i as int]) + remove_all(rest.drop_first(), pat@) =~= out@
                    + remove_all(rest, pat@));
            }
            out.push(s[i]);
            i = i + 1;
        }
    }
    assert(out@ + remove_all(s@.subrange(i as int, n as int), pat@) =~= out@);
    out
}

// ---------------------------------------------------------------------------
// Decimal numbers
// ---------------------------------------------------------------------------

/// `c` is an ASCII decimal digit.
pub open spec fn is_digit(c: char) -> bool {
    '0' <= c <= '9'
}

/// The number that the decimal digits `d` write.
pub open spec fn digits_value(d: Seq<char>) -> int
    decreases d.len(),
{
    if d.len() == 0 {
        0
    } else {
        digits_value(d.drop_last()) * 10 + (d.last() as int - '0' as int)
    }
}

/// Every character of `d` is an ASCII decimal digit.
pub open spec fn all_digits(d: Seq<char>) -> bool {
    forall|k: int| 0 <= k < d.len() ==> is_digit(#[trigger] d[k])
}

/// `s` starts with a `'+'` or `'-'` sign.
pub open spec fn has_sign(s: Seq<char>) -> bool {
    s.len() > 0 && (s[0] == '-' || s[0] == '+')
}

/// The `i8` that the digits `d` write, negated when `negative`: `None` when
/// `d` is empty, holds a non-digit, or writes a number out of range.
pub open spec fn signed_digits_i8(negative: bool, d: Seq<char>) -> Option<i8> {
    let v = if negative {
        -digits_value(d)
    } else {
        digits_value(d)
    };
    if d.len() > 0 && all_digits(d) && -128 <= v <= 127 {
        Some(v as i8)
    } else {
        None
    }
}

/// What `str::parse::<i8>` gives for `s`: an optional `'+'` or `'-'`, then
/// at least one ASCII digit and nothing else, with a value in `i8`'s range;
/// `None` for every other string.
pub open spec fn parse_i8(s: Seq<char>) -> Option<i8> {
    let negative = s.len() > 0 && s[0] == '-';
    if has_sign(s) {
        signed_digits_i8(negative, s.drop_first())
    } else {
        signed_digits_i8(negative, s)
    }
}

proof fn lemma_digits_value_nonneg(d: Seq<char>)
    requires
        all_digits(d),
    ensures
        digits_value(d) >= 0,
    decreases d.len(),
{
    if d.len() > 0 {
        let t = d.drop_last();
        assert forall|k: int| 0 <= k < t.len() implies is_digit(#[trigger] t[k]) by {
            assert(t[k] == d[k]);
        }
        lemma_digits_value_nonneg(t);
    }
}

/// Computes `parse_i8(s)`.
pub fn parse_i8_chars(s: &[char]) -> (r: Option<i8>)
    ensures
        r == parse_i8(s@),
{
    let n: usize = s.len();
    let negative = n > 0 && s[0] == '-';
    let signed = n > 0 && (s[0] == '-' || s[0] == '+');
    let first: usize = if signed {
        1
    } else {
        0
    };
    let ghost d = if has_sign(s@) {
        s@.drop_first()
    } else {
        s@
    };
    assert(d =~= s@.subrange(first as int, n as int));
    if first == n {
        return None;
    }
    // `acc` is the value of the digits read so far, held at 1000 once it
    // passes 1000.
    let mut acc: u32 = 0;
    let mut k: usize = first;
    while k < n
        invariant
            n == s@.len(),
            first <= k <= n,
            d == s@.subrange(first as int, n as int),
            d == (if has_sign(s@) {
                s@.drop_first()
            } else {
                s@
            }),
            forall|j: int| 0 <= j < k - first ==> is_digit(#[trigger] d[j]),
            acc <= 1000,
            acc as int == if digits_value(d.take(k - first)) < 1000 {
                digits_value(d.take(k - first))
            } else {
                1000
            },
        decreases n - k,
    {
        let c = s[k];
        if !('0' <= c && c <= '9') {
            assert(!is_digit(d[k - first]));
            assert(!all_digits(d));
            return None;
        }
        let digit: u32 = (c as u32) - ('0' as u32);
        proof {
            let t = d.take(k - first + 1);
            assert(t.drop_last() =~= d.take(k - first));
            assert(t.last() == c);
            assert forall|j: int| 0 <= j < t.len() implies is_digit(#[trigger] t[j]) by {
                assert(t[j] == d[j]);
            }
            assert forall|j: int| 0 <= j < t.len() - 1 implies is_digit(#[trigger] t.drop_last()[j]) by {
                assert(t.drop_last()[j] == d[j]);
            }
            lemma_digits_value_nonneg(t.drop_last());
        }
        if acc >= 100 {
            acc = 1000;
        } else {
            acc = acc * 10 + digit;
            if acc > 1000 {
                acc = 1000;
            }
        }
        k = k + 1;
    }
    assert(d.take(n - first) =~= d);
    proof {
        lemma_digits_value_nonneg(d);
    }
    if negative {
        if acc <= 128 {
            Some((0 - (acc as i32)) as i8)
        } else {
            None
        }
    } else {
        if acc <= 127 {
            Some(acc as i8)
        } else {
            None
        }
    }
}

} // verus!
