//! Which lines of radare2's type dump declare the expected symbols, and
//! what is reported of them: the specification of the offsets report, with
//! its laws.

use vstd::prelude::*;

use crate::dumper::{dump_blocked, OffsetsDump};
use crate::errors::OffsetDumperError;
use crate::matching::{first_hex_offset, is_hex_offset, lemma_first_hex_offset};
use crate::symbols::{
    expected_symbols, is_symbol_table, last_space, lemma_last_space, symbol_kind, symbol_name,
    EXPECTED_SYMBOL_COUNT,
};
use crate::text::{contains, has_substring, lines, occurs_at};

verus! {

/// A line that opens a structure in radare2's type dump: it holds
/// `struct _` but not ` struct`.
pub open spec fn is_struct_header(line: Seq<char>) -> bool {
    has_substring(line, "struct _"@) && !has_substring(line, " struct"@)
}

/// The last structure line among the first `n` lines of `ls`, or the empty
/// text where there is none: the context in which the line `n - 1` stands.
pub open spec fn context_upto(ls: Seq<Seq<char>>, n: int) -> Seq<char>
    decreases n,
{
    if n <= 0 {
        Seq::empty()
    } else if is_struct_header(ls[n - 1]) {
        ls[n - 1]
    } else {
        context_upto(ls, n - 1)
    }
}

/// The line holds the declaration of the expected symbol `k` and its
/// context holds that symbol's structure condition.
pub open spec fn symbol_matches(line: Seq<char>, context: Seq<char>, k: int) -> bool {
    &&& has_substring(line, expected_symbols()[k].0)
    &&& has_substring(context, expected_symbols()[k].1)
}

/// The line, in its context, declares one of the expected symbols.
pub open spec fn is_symbol_line(line: Seq<char>, context: Seq<char>) -> bool {
    exists|k: int| 0 <= k < EXPECTED_SYMBOL_COUNT && #[trigger] symbol_matches(line, context, k)
}

/// The lines among the first `n` lines of `ls` that declare an expected
/// symbol, in order.
pub open spec fn symbol_lines_upto(ls: Seq<Seq<char>>, n: int) -> Seq<Seq<char>>
    decreases n,
{
    if n <= 0 {
        Seq::empty()
    } else if is_symbol_line(ls[n - 1], context_upto(ls, n)) {
        symbol_lines_upto(ls, n - 1).push(ls[n - 1])
    } else {
        symbol_lines_upto(ls, n - 1)
    }
}

/// The lines of radare2's type dump that declare an expected symbol, in
/// order.
pub open spec fn symbol_lines(stdout: Seq<char>) -> Seq<Seq<char>> {
    symbol_lines_upto(lines(stdout), lines(stdout).len() as int)
}

/// The first expected symbol, from position `k` on, whose declaration the
/// line holds; `EXPECTED_SYMBOL_COUNT` where there is none.
pub open spec fn first_symbol_from(line: Seq<char>, k: int) -> int
    decreases EXPECTED_SYMBOL_COUNT - k,
{
    if k < 0 || k >= EXPECTED_SYMBOL_COUNT {
        EXPECTED_SYMBOL_COUNT as int
    } else if has_substring(line, expected_symbols()[k].0) {
        k
    } else {
        first_symbol_from(line, k + 1)
    }
}

/// The first expected symbol whose declaration the line holds (whatever
/// its structure condition).
pub open spec fn first_symbol(line: Seq<char>) -> int {
    first_symbol_from(line, 0)
}

/// The line holds the declaration of some expected symbol.
pub open spec fn names_symbol(line: Seq<char>) -> bool {
    first_symbol(line) < EXPECTED_SYMBOL_COUNT
}

/// The offset reported for a symbol line and the offset found on it: the
/// type and the name of the first expected symbol that the line declares.
pub open spec fn entry_for(line: Seq<char>, offset: Seq<char>) -> (Seq<char>, Seq<char>, Seq<char>) {
    let decl = expected_symbols()[first_symbol(line)].0;
    (symbol_kind(decl), symbol_name(decl), offset)
}

/// The offsets that the offset pattern finds on each line, in order; `None`
/// where the pattern finds none on some line.
pub open spec fn line_offsets(ls: Seq<Seq<char>>) -> Option<Seq<Seq<char>>>
    decreases ls.len(),
{
    if ls.len() == 0 {
        Some(Seq::empty())
    } else {
        match (line_offsets(ls.drop_last()), first_hex_offset(ls.last())) {
            (Some(os), Some(o)) => Some(os.push(o)),
            _ => None,
        }
    }
}

/// `s` without repetitions: each item at its first place.
pub open spec fn dedup<A>(s: Seq<A>) -> Seq<A>
    decreases s.len(),
{
    if s.len() == 0 {
        Seq::empty()
    } else if dedup(s.drop_last()).contains(s.last()) {
        dedup(s.drop_last())
    } else {
        dedup(s.drop_last()).push(s.last())
    }
}

/// The entries of the symbol lines `ls` with the offsets `offsets` found on
/// them, line by line.
pub open spec fn entries(ls: Seq<Seq<char>>, offsets: Seq<Seq<char>>) -> Seq<
    (Seq<char>, Seq<char>, Seq<char>),
> {
    Seq::new(ls.len(), |i: int| entry_for(ls[i], offsets[i]))
}

/// What is reported from the symbol lines `ls` and the offsets found on
/// them: their entries without repetitions; a failure where there is none.
pub open spec fn offsets_report(ls: Seq<Seq<char>>, offsets: Seq<Seq<char>>) -> Result<
    Seq<(Seq<char>, Seq<char>, Seq<char>)>,
    OffsetDumperError,
> {
    let e = dedup(entries(ls, offsets));
    if e.len() == 0 {
        Err(OffsetDumperError::NtoskrnlDumpingOffsetsError)
    } else {
        Ok(e)
    }
}

/// What the dumper reports from the output of `radare2 -c idpi`: a failure
/// where the error output stops the dump; otherwise the report of the
/// symbol lines and their offsets. `None` where the offset pattern finds no
/// offset on some symbol line.
pub open spec fn symbols_report(stdout: Seq<char>, stderr: Seq<char>) -> Option<
    Result<Seq<(Seq<char>, Seq<char>, Seq<char>)>, OffsetDumperError>,
> {
    if dump_blocked(stderr) {
        Some(Err(OffsetDumperError::NtoskrnlDumpingOffsetsError))
    } else {
        match line_offsets(symbol_lines(stdout)) {
            None => None,
            Some(offsets) => Some(offsets_report(symbol_lines(stdout), offsets)),
        }
    }
}

/// The views of a list of offsets.
pub open spec fn dump_views(v: Seq<OffsetsDump>) -> Seq<(Seq<char>, Seq<char>, Seq<char>)> {
    v.map_values(|d: OffsetsDump| d@)
}

/// The first symbol found from position `j` on is at or after `j`.
proof fn lemma_first_symbol_bounds(line: Seq<char>, j: int)
    requires
        0 <= j <= EXPECTED_SYMBOL_COUNT,
    ensures
        j <= first_symbol_from(line, j) <= EXPECTED_SYMBOL_COUNT,
    decreases EXPECTED_SYMBOL_COUNT - j,
{
    if j < EXPECTED_SYMBOL_COUNT && !has_substring(line, expected_symbols()[j].0) {
        lemma_first_symbol_bounds(line, j + 1);
    }
}

/// A line holding the declaration of symbol `k` holds that of a first one,
/// at or before `k`.
pub proof fn lemma_first_symbol(line: Seq<char>, j: int, k: int)
    requires
        0 <= j <= k < EXPECTED_SYMBOL_COUNT,
        has_substring(line, expected_symbols()[k].0),
    ensures
        j <= first_symbol_from(line, j) <= k,
        has_substring(line, expected_symbols()[first_symbol_from(line, j)].0),
    decreases k - j,
{
    if !has_substring(line, expected_symbols()[j].0) {
        lemma_first_symbol(line, j + 1, k);
    }
}

/// Every symbol line holds the declaration of some expected symbol.
pub proof fn lemma_symbol_lines_name_symbols(ls: Seq<Seq<char>>, n: int)
    ensures
        forall|i: int|
            0 <= i < symbol_lines_upto(ls, n).len() ==> names_symbol(
                #[trigger] symbol_lines_upto(ls, n)[i],
            ),
    decreases n,
{
    if n > 0 {
        lemma_symbol_lines_name_symbols(ls, n - 1);
        let prev = symbol_lines_upto(ls, n - 1);
        let sl = symbol_lines_upto(ls, n);
        if is_symbol_line(ls[n - 1], context_upto(ls, n)) {
            let k = choose|k: int|
                0 <= k < EXPECTED_SYMBOL_COUNT && #[trigger] symbol_matches(
                    ls[n - 1],
                    context_upto(ls, n),
                    k,
                );
            lemma_first_symbol(ls[n - 1], 0, k);
            assert forall|i: int| 0 <= i < sl.len() implies names_symbol(#[trigger] sl[i]) by {
                if i < prev.len() {
                    assert(sl[i] == prev[i]);
                    assert(names_symbol(prev[i]));
                }
            }
        }
    }
}

/// An item of `dedup(s)` is one of `s` and the other way round, and
/// `dedup(s)` holds no item twice.
pub proof fn lemma_dedup<A>(s: Seq<A>)
    ensures
        forall|x: A| dedup(s).contains(x) <==> s.contains(x),
        dedup(s).no_duplicates(),
    decreases s.len(),
{
    if s.len() > 0 {
        let t = s.drop_last();
        lemma_dedup(t);
        let d = dedup(t);
        let e = dedup(s);
        let last = s.last();
        assert forall|x: A| e.contains(x) implies s.contains(x) by {
            let j = choose|j: int| 0 <= j < e.len() && e[j] == x;
            if d.contains(last) || j < d.len() {
                assert(d[j] == x);
                assert(d.contains(x));
                assert(t.contains(x));
                let i = choose|i: int| 0 <= i < t.len() && t[i] == x;
                assert(s[i] == x);
            } else {
                assert(s[s.len() - 1] == x);
            }
        }
        assert forall|x: A| s.contains(x) implies e.contains(x) by {
            let i = choose|i: int| 0 <= i < s.len() && s[i] == x;
            if i < s.len() - 1 {
                assert(t[i] == x);
                assert(t.contains(x));
                assert(d.contains(x));
                let j = choose|j: int| 0 <= j < d.len() && d[j] == x;
                if !d.contains(last) {
                    assert(e[j] == x);
                }
            } else if !d.contains(last) {
                assert(e[d.len() as int] == x);
            }
        }
        if !d.contains(last) {
            assert forall|a: int, b: int| 0 <= a < e.len() && 0 <= b < e.len() && a != b implies e[a]
                != e[b] by {
                if a < d.len() && b < d.len() {
                    assert(e[a] == d[a] && e[b] == d[b]);
                } else if a < d.len() {
                    assert(e[a] == d[a]);
                } else {
                    assert(e[b] == d[b]);
                }
            }
        }
    }
}

/// The symbol line `line` (in `context`) declares an expected symbol.
pub(crate) fn declares_symbol(table: &Vec<(Vec<char>, Vec<char>)>, line: &[char], context: &[char]) -> (r: bool)
    requires
        is_symbol_table(table@),
    ensures
        r == is_symbol_line(line@, context@),
{
    let mut k: usize = 0;
    while k < EXPECTED_SYMBOL_COUNT
        invariant
            is_symbol_table(table@),
            k <= EXPECTED_SYMBOL_COUNT,
            forall|j: int| 0 <= j < k ==> !#[trigger] symbol_matches(line@, context@, j),
        decreases EXPECTED_SYMBOL_COUNT - k,
    {
        let entry = &table[k];
        if contains(line, entry.0.as_slice()) && contains(context, entry.1.as_slice()) {
            assert(symbol_matches(line@, context@, k as int));
            return true;
        }
        k = k + 1;
    }
    false
}

/// Finds `first_symbol(line)`.
pub(crate) fn first_symbol_index(table: &Vec<(Vec<char>, Vec<char>)>, line: &[char]) -> (r: usize)
    requires
        is_symbol_table(table@),
    ensures
        r == first_symbol(line@),
{
    let mut k: usize = 0;
    while k < EXPECTED_SYMBOL_COUNT
        invariant
            is_symbol_table(table@),
            k <= EXPECTED_SYMBOL_COUNT,
            first_symbol(line@) == first_symbol_from(line@, k as int),
        decreases EXPECTED_SYMBOL_COUNT - k,
    {
        if contains(line, table[k].0.as_slice()) {
            return k;
        }
        k = k + 1;
    }
    k
}

/// `line_offsets` fails on all of `ls` where it fails on its first `n`
/// lines.
pub(crate) proof fn lemma_line_offsets_prefix(ls: Seq<Seq<char>>, n: int, m: int)
    requires
        0 <= n <= m <= ls.len(),
        line_offsets(ls.take(n)) is None,
    ensures
        line_offsets(ls.take(m)) is None,
    decreases m - n,
{
    if n < m {
        lemma_line_offsets_prefix(ls, n, m - 1);
        assert(ls.take(m).drop_last() =~= ls.take(m - 1));
    }
}

/// The entry carries the type and the name of the expected symbol `k`.
pub open spec fn names_of_symbol(e: (Seq<char>, Seq<char>, Seq<char>), k: int) -> bool {
    e.0 == symbol_kind(expected_symbols()[k].0) && e.1 == symbol_name(expected_symbols()[k].0)
}

/// The entry carries the type and the name of one of the expected symbols.
pub open spec fn is_expected_entry(e: (Seq<char>, Seq<char>, Seq<char>)) -> bool {
    exists|k: int| 0 <= k < EXPECTED_SYMBOL_COUNT && #[trigger] names_of_symbol(e, k)
}

/// Every symbol line among the first `n` lines of `ls` is one of them.
proof fn lemma_symbol_lines_are_lines(ls: Seq<Seq<char>>, n: int)
    requires
        n <= ls.len(),
    ensures
        forall|i: int|
            0 <= i < symbol_lines_upto(ls, n).len() ==> exists|k: int|
                0 <= k < n && ls[k] == #[trigger] symbol_lines_upto(ls, n)[i],
    decreases n,
{
    if n > 0 {
        lemma_symbol_lines_are_lines(ls, n - 1);
        let prev = symbol_lines_upto(ls, n - 1);
        let sl = symbol_lines_upto(ls, n);
        assert forall|i: int| 0 <= i < sl.len() implies exists|k: int|
            0 <= k < n && ls[k] == #[trigger] sl[i] by {
            if i < prev.len() {
                assert(sl[i] == prev[i]);
                let k = choose|k: int| 0 <= k < n - 1 && ls[k] == #[trigger] prev[i];
                assert(ls[k] == sl[i]);
            } else {
                assert(sl[i] == ls[n - 1]);
            }
        }
    }
}

/// The symbol lines are lines of the output, in their order there: each is
/// one of the output's lines.
pub proof fn law_symbol_lines_are_output_lines(stdout: Seq<char>)
    ensures
        forall|i: int|
            0 <= i < symbol_lines(stdout).len() ==> lines(stdout).contains(
                #[trigger] symbol_lines(stdout)[i],
            ),
{
    lemma_symbol_lines_are_lines(lines(stdout), lines(stdout).len() as int);
    assert forall|i: int| 0 <= i < symbol_lines(stdout).len() implies lines(stdout).contains(
        #[trigger] symbol_lines(stdout)[i],
    ) by {
        let k = choose|k: int|
            0 <= k < lines(stdout).len() && lines(stdout)[k] == #[trigger] symbol_lines(stdout)[i];
    }
}

/// The report `v` lists each entry found on the symbol lines of `stdout`
/// exactly once, and nothing else, in the order of their first finding; it
/// is not empty; each entry carries the type and the name of one of the
/// expected symbols; and each offset has the shape of an offset.
pub open spec fn is_faithful_report(stdout: Seq<char>, v: Seq<(Seq<char>, Seq<char>, Seq<char>)>) -> bool {
    let ls = symbol_lines(stdout);
    let es = entries(ls, line_offsets(ls)->0);
    &&& v.len() > 0
    &&& v.no_duplicates()
    &&& forall|x: (Seq<char>, Seq<char>, Seq<char>)| v.contains(x) <==> es.contains(x)
    &&& forall|j: int| 0 <= j < v.len() ==> is_expected_entry(#[trigger] v[j])
    &&& forall|j: int| 0 <= j < v.len() ==> is_hex_offset(#[trigger] v[j].2)
    &&& in_first_occurrence_order(es, v)
}

/// Where an offset is found on every line, the offset of line `q` is what
/// the offset pattern finds on it.
pub proof fn lemma_line_offsets_each(ls: Seq<Seq<char>>)
    ensures
        line_offsets(ls) matches Some(os) ==> {
            &&& os.len() == ls.len()
            &&& forall|q: int| 0 <= q < ls.len() ==> first_hex_offset(#[trigger] ls[q]) == Some(os[q])
        },
    decreases ls.len(),
{
    if ls.len() > 0 {
        let t = ls.drop_last();
        lemma_line_offsets_each(t);
        if let Some(os) = line_offsets(ls) {
            let ts = line_offsets(t)->0;
            assert forall|q: int| 0 <= q < ls.len() implies first_hex_offset(#[trigger] ls[q]) == Some(os[q]) by {
                if q < ls.len() - 1 {
                    assert(ls[q] == t[q]);
                    assert(os[q] == ts[q]);
                }
            }
        }
    }
}

/// A report of offsets lists each entry found on a symbol line exactly
/// once, and nothing else, in the order in which they are first found; it
/// is never empty; each entry carries the type and the name of one of the
/// expected symbols; and each offset has the shape `0x` and offset digits.
pub proof fn law_offsets_report(stdout: Seq<char>, stderr: Seq<char>)
    ensures
        symbols_report(stdout, stderr) matches Some(Ok(v)) ==> is_faithful_report(stdout, v),
{
    if let Some(Ok(v)) = symbols_report(stdout, stderr) {
        let ls = symbol_lines(stdout);
        let os = line_offsets(ls)->0;
        let es = entries(ls, os);
        lemma_dedup(es);
        lemma_symbol_lines_name_symbols(lines(stdout), lines(stdout).len() as int);
        assert(v == dedup(es));
        assert forall|j: int| 0 <= j < v.len() implies is_expected_entry(#[trigger] v[j]) by {
            assert(v.contains(v[j]));
            assert(dedup(es).contains(v[j]));
            assert(es.contains(v[j]));
            let q = choose|q: int| 0 <= q < es.len() && es[q] == v[j];
            assert(es[q] == entry_for(ls[q], os[q]));
            assert(names_symbol(ls[q]));
            let k = first_symbol(ls[q]);
            lemma_first_symbol_bounds(ls[q], 0);
            assert(names_of_symbol(v[j], k));
        }
        law_dedup_keeps_first_order(es);
        lemma_line_offsets_each(ls);
        assert forall|j: int| 0 <= j < v.len() implies is_hex_offset(#[trigger] v[j].2) by {
            assert(v.contains(v[j]));
            assert(dedup(es).contains(v[j]));
            assert(es.contains(v[j]));
            let q = choose|q: int| 0 <= q < es.len() && es[q] == v[j];
            assert(es[q] == entry_for(ls[q], os[q]));
            assert(first_hex_offset(ls[q]) == Some(os[q]));
            lemma_first_hex_offset(ls[q], 0);
        }
        assert(is_faithful_report(stdout, v));
    }
}

/// The entry `e` is the one that the symbol line `line` gives with the
/// offset `e.2`, and that offset is a piece of the line.
pub open spec fn is_entry_of_line(line: Seq<char>, e: (Seq<char>, Seq<char>, Seq<char>)) -> bool {
    has_substring(line, e.2) && e == entry_for(line, e.2)
}

/// The type, the name and the offset of `e` are all pieces of `line`.
pub open spec fn is_found_on(line: Seq<char>, e: (Seq<char>, Seq<char>, Seq<char>)) -> bool {
    &&& has_substring(line, e.0)
    &&& has_substring(line, e.1)
    &&& has_substring(line, e.2)
}

/// `e` is the entry of one of the symbol lines of `stdout`, with an offset
/// found on that line.
pub open spec fn comes_from_symbol_line(stdout: Seq<char>, e: (Seq<char>, Seq<char>, Seq<char>)) -> bool {
    exists|i: int|
        0 <= i < symbol_lines(stdout).len() && #[trigger] is_entry_of_line(symbol_lines(stdout)[i], e)
}

/// The type, the name and the offset of `e` stand together on one line of
/// `stdout`.
pub open spec fn is_found_in_dump(stdout: Seq<char>, e: (Seq<char>, Seq<char>, Seq<char>)) -> bool {
    exists|k: int| 0 <= k < lines(stdout).len() && #[trigger] is_found_on(lines(stdout)[k], e)
}

/// A line that names a symbol holds the declaration of the first symbol it
/// names.
proof fn lemma_first_symbol_declared(line: Seq<char>, j: int)
    requires
        0 <= j,
        first_symbol_from(line, j) < EXPECTED_SYMBOL_COUNT,
    ensures
        has_substring(line, expected_symbols()[first_symbol_from(line, j)].0),
    decreases EXPECTED_SYMBOL_COUNT - j,
{
    if j < EXPECTED_SYMBOL_COUNT && !has_substring(line, expected_symbols()[j].0) {
        lemma_first_symbol_declared(line, j + 1);
    }
}

/// A piece of a piece of `hay` is a piece of `hay`.
proof fn lemma_piece_of_piece(hay: Seq<char>, d: Seq<char>, a: int, b: int)
    requires
        has_substring(hay, d),
        0 <= a <= b <= d.len(),
    ensures
        has_substring(hay, d.subrange(a, b)),
{
    let i = choose|i: int| occurs_at(hay, d, i);
    assert(hay.subrange(i + a, i + b) =~= d.subrange(a, b));
    assert(occurs_at(hay, d.subrange(a, b), i + a));
}

/// On a line that names a symbol, the entry that the line gives with an
/// offset found on it has its type, its name and its offset on that line.
pub proof fn law_entry_found_on_its_line(line: Seq<char>, offset: Seq<char>)
    requires
        names_symbol(line),
        has_substring(line, offset),
    ensures
        is_found_on(line, entry_for(line, offset)),
{
    lemma_first_symbol_declared(line, 0);
    let d = expected_symbols()[first_symbol(line)].0;
    lemma_last_space(d);
    let p = last_space(d);
    if p < 0 {
        assert(line.subrange(0, 0) =~= Seq::<char>::empty());
        assert(occurs_at(line, Seq::<char>::empty(), 0));
        assert(symbol_kind(d) =~= Seq::<char>::empty());
    } else {
        lemma_piece_of_piece(line, d, 0, p);
    }
    lemma_piece_of_piece(line, d, p + 1, d.len() as int);
}

/// An entry of a symbol line has its type, its name and its offset together
/// on one line of the full dump.
pub proof fn law_symbol_entry_in_full_dump(stdout: Seq<char>, e: (Seq<char>, Seq<char>, Seq<char>))
    requires
        comes_from_symbol_line(stdout, e),
    ensures
        is_found_in_dump(stdout, e),
{
    let sl = symbol_lines(stdout);
    let i = choose|i: int| 0 <= i < sl.len() && #[trigger] is_entry_of_line(sl[i], e);
    lemma_symbol_lines_name_symbols(lines(stdout), lines(stdout).len() as int);
    assert(names_symbol(sl[i]));
    law_entry_found_on_its_line(sl[i], e.2);
    law_symbol_lines_are_output_lines(stdout);
    assert(lines(stdout).contains(sl[i]));
    let k = choose|k: int| 0 <= k < lines(stdout).len() && lines(stdout)[k] == sl[i];
    assert(is_found_on(lines(stdout)[k], e));
}

/// Where a report of offsets is made, the output holds a line, so `--all`
/// on the same output reports all of its lines.
pub proof fn law_report_has_lines(stdout: Seq<char>, stderr: Seq<char>)
    ensures
        symbols_report(stdout, stderr) is Some && symbols_report(stdout, stderr)->0 is Ok ==> {
            &&& !dump_blocked(stderr)
            &&& lines(stdout).len() > 0
        },
{
    if let Some(Ok(v)) = symbols_report(stdout, stderr) {
        let sl = symbol_lines(stdout);
        let es = entries(sl, line_offsets(sl)->0);
        lemma_dedup(es);
        assert(v == dedup(es));
        assert(v.contains(v[0]));
        assert(es.contains(v[0]));
        assert(sl.len() > 0);
        law_symbol_lines_are_output_lines(stdout);
        assert(lines(stdout).contains(sl[0]));
    }
}

/// The structure context of a line is the last line up to it that holds
/// `struct _` and does not hold ` struct`; a member line such as
/// ` 0x0 struct _KPROCESS Pcb` never becomes the context. Where there is no
/// such line, the context is empty.
pub proof fn law_struct_context(ls: Seq<Seq<char>>, n: int)
    requires
        0 <= n <= ls.len(),
    ensures
        ({
            let c = context_upto(ls, n);
            ||| (c.len() == 0 && forall|m: int|
                0 <= m < n ==> !(has_substring(#[trigger] ls[m], "struct _"@) && !has_substring(
                    ls[m],
                    " struct"@,
                )))
            ||| exists|j: int|
                0 <= j < n && c == #[trigger] ls[j] && has_substring(ls[j], "struct _"@)
                    && !has_substring(ls[j], " struct"@) && forall|m: int|
                    j < m < n ==> !(has_substring(#[trigger] ls[m], "struct _"@) && !has_substring(
                        ls[m],
                        " struct"@,
                    ))
        }),
    decreases n,
{
    if n > 0 {
        law_struct_context(ls, n - 1);
        let l = ls[n - 1];
        if has_substring(l, "struct _"@) && !has_substring(l, " struct"@) {
            assert(context_upto(ls, n) == ls[n - 1]);
        } else {
            assert(context_upto(ls, n) == context_upto(ls, n - 1));
            let c = context_upto(ls, n - 1);
            if c.len() == 0 && forall|m: int|
                0 <= m < n - 1 ==> !(has_substring(#[trigger] ls[m], "struct _"@) && !has_substring(
                    ls[m],
                    " struct"@,
                )) {
                assert forall|m: int| 0 <= m < n implies !(has_substring(
                    #[trigger] ls[m],
                    "struct _"@,
                ) && !has_substring(ls[m], " struct"@)) by {
                    if m == n - 1 {
                        assert(ls[m] == l);
                    }
                }
            } else {
                let j = choose|j: int|
                    0 <= j < n - 1 && c == #[trigger] ls[j] && has_substring(ls[j], "struct _"@)
                        && !has_substring(ls[j], " struct"@) && forall|m: int|
                        j < m < n - 1 ==> !(has_substring(#[trigger] ls[m], "struct _"@)
                            && !has_substring(ls[m], " struct"@));
                assert forall|m: int| j < m < n implies !(has_substring(
                    #[trigger] ls[m],
                    "struct _"@,
                ) && !has_substring(ls[m], " struct"@)) by {
                    if m == n - 1 {
                        assert(ls[m] == l);
                    }
                }
            }
        }
    }
}

/// A line is kept as a symbol line exactly when it holds the declaration of
/// some expected symbol and its structure context holds that symbol's
/// structure condition; kept lines stay in order.
pub proof fn law_symbol_line_selection(ls: Seq<Seq<char>>, i: int)
    requires
        0 <= i < ls.len(),
    ensures
        symbol_lines_upto(ls, i + 1) == if exists|k: int|
            0 <= k < EXPECTED_SYMBOL_COUNT && has_substring(ls[i], (#[trigger] expected_symbols()[k]).0)
                && has_substring(context_upto(ls, i + 1), expected_symbols()[k].1) {
            symbol_lines_upto(ls, i).push(ls[i])
        } else {
            symbol_lines_upto(ls, i)
        },
{
    let c = context_upto(ls, i + 1);
    let lit = exists|k: int|
        0 <= k < EXPECTED_SYMBOL_COUNT && has_substring(ls[i], (#[trigger] expected_symbols()[k]).0)
            && has_substring(c, expected_symbols()[k].1);
    if lit {
        let k = choose|k: int|
            0 <= k < EXPECTED_SYMBOL_COUNT && has_substring(ls[i], (#[trigger] expected_symbols()[k]).0)
                && has_substring(c, expected_symbols()[k].1);
        assert(symbol_matches(ls[i], c, k));
    }
    if is_symbol_line(ls[i], c) {
        let k = choose|k: int|
            0 <= k < EXPECTED_SYMBOL_COUNT && #[trigger] symbol_matches(ls[i], c, k);
        assert(has_substring(ls[i], expected_symbols()[k].0));
    }
}

/// A line that declares expected symbol `k` and none before it gives the
/// entry of symbol `k`: its type, its name, and the offset found.
pub proof fn law_entry_of_first_declared_symbol(line: Seq<char>, k: int, offset: Seq<char>)
    requires
        0 <= k < EXPECTED_SYMBOL_COUNT,
        has_substring(line, expected_symbols()[k].0),
        forall|j: int| 0 <= j < k ==> !has_substring(line, (#[trigger] expected_symbols()[j]).0),
    ensures
        entry_for(line, offset) == (
            symbol_kind(expected_symbols()[k].0),
            symbol_name(expected_symbols()[k].0),
            offset,
        ),
{
    lemma_first_symbol_is(line, 0, k);
}

proof fn lemma_first_symbol_is(line: Seq<char>, j: int, k: int)
    requires
        0 <= j <= k < EXPECTED_SYMBOL_COUNT,
        has_substring(line, expected_symbols()[k].0),
        forall|m: int| 0 <= m < k ==> !has_substring(line, (#[trigger] expected_symbols()[m]).0),
    ensures
        first_symbol_from(line, j) == k,
    decreases k - j,
{
    if j < k {
        assert(!has_substring(line, expected_symbols()[j].0));
        lemma_first_symbol_is(line, j + 1, k);
    }
}

/// Where the later `dedup(s)[b]` of two kept items occurs in `s` at `q`,
/// the earlier `dedup(s)[a]` occurs before `q`.
proof fn lemma_dedup_order<A>(s: Seq<A>, a: int, b: int, q: int)
    requires
        0 <= a < b < dedup(s).len(),
        0 <= q < s.len(),
        s[q] == dedup(s)[b],
    ensures
        exists|p: int| 0 <= p < q && #[trigger] s[p] == dedup(s)[a],
    decreases s.len(),
{
    let t = s.drop_last();
    let d = dedup(s);
    let e = dedup(t);
    let last = s.last();
    lemma_dedup(t);
    if e.contains(last) {
        assert(d == e);
        if q < s.len() - 1 {
            assert(t[q] == s[q]);
            lemma_dedup_order(t, a, b, q);
            let p = choose|p: int| 0 <= p < q && #[trigger] t[p] == e[a];
            assert(s[p] == d[a]);
        } else {
            assert(t.contains(last));
            let q2 = choose|q2: int| 0 <= q2 < t.len() && t[q2] == last;
            lemma_dedup_order(t, a, b, q2);
            let p = choose|p: int| 0 <= p < q2 && #[trigger] t[p] == e[a];
            assert(s[p] == d[a]);
        }
    } else {
        assert(d == e.push(last));
        if b < e.len() {
            assert(d[b] == e[b]);
            assert(d[a] == e[a]);
            assert(e.contains(e[b]));
            if q == s.len() - 1 {
                assert(false);
            }
            assert(t[q] == s[q]);
            lemma_dedup_order(t, a, b, q);
            let p = choose|p: int| 0 <= p < q && #[trigger] t[p] == e[a];
            assert(s[p] == d[a]);
        } else {
            assert(d[a] == e[a]);
            assert(e.contains(e[a]));
            assert(t.contains(e[a]));
            let p = choose|p: int| 0 <= p < t.len() && t[p] == e[a];
            if q < s.len() - 1 {
                assert(t[q] == last);
                assert(t.contains(last));
                assert(false);
            }
            assert(s[p] == d[a]);
        }
    }
}

/// `d` lists items of `s` in the order of their first occurrences: wherever
/// a later item of `d` occurs in `s`, every earlier item of `d` occurs
/// before it.
pub open spec fn in_first_occurrence_order<A>(s: Seq<A>, d: Seq<A>) -> bool {
    forall|a: int, b: int, q: int|
        #![trigger s[q], d[a], d[b]]
        0 <= a < b < d.len() && 0 <= q < s.len() && s[q] == d[b] ==> occurs_before(s, d[a], q)
}

/// `x` occurs in `s` before position `q`.
pub open spec fn occurs_before<A>(s: Seq<A>, x: A, q: int) -> bool {
    exists|p: int| 0 <= p < q && s[p] == x
}

/// Removing repetitions keeps the order of first occurrences.
pub proof fn law_dedup_keeps_first_order<A>(s: Seq<A>)
    ensures
        in_first_occurrence_order(s, dedup(s)),
{
    let d = dedup(s);
    assert forall|a: int, b: int, q: int|
        #![trigger s[q], d[a], d[b]]
        0 <= a < b < d.len() && 0 <= q < s.len() && s[q] == d[b] implies occurs_before(s, d[a], q) by {
        lemma_dedup_order(s, a, b, q);
    }
}

} // verus!
