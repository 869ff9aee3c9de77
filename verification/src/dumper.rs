//! The dumper's decisions on what radare2 printed: the arguments of each
//! radare2 run, the version check, the PDB download report, the file
//! version, and the offsets of the kernel symbols.

use vstd::prelude::*;

use crate::constants::{
    EXPECTED_FILE_VERSION_INFO, EXPECTED_RADARE_MAJOR_VERSION, OFFSETS_REGEX,
    SEMANTIC_VERSIONING_REGEX,
};
use crate::errors::OffsetDumperError;
use crate::matching::{all_captures, first_match, is_hex_offset};
use crate::report::{
    comes_from_symbol_line, context_upto, declares_symbol, dedup, dump_views, entries,
    first_symbol_index, is_entry_of_line, is_found_in_dump, law_report_has_lines,
    law_offsets_report, law_symbol_entry_in_full_dump, lemma_dedup,
    lemma_line_offsets_prefix, lemma_symbol_lines_name_symbols, line_offsets, names_symbol,
    offsets_report, symbol_lines, symbol_lines_upto, symbols_report,
};
use crate::symbols::{expected_symbols_table, is_symbol_table, kind_and_name};
use crate::text::{
    chars_of, contains, cut, has_prefix, has_substring, law_trim_idempotent, line_bounds, lines,
    remove_all, removed_all, starts_with, trim, trim_bounds,
};
use crate::version::{version_check, version_from_matches, RadareVersionCheck};

verus! {

/// One offset found: the type and the name of the symbol, and the offset as
/// radare2 printed it (`0x...`).
#[derive(Debug, Clone, PartialEq, Eq, Hash)]
pub struct OffsetsDump {
    pub kind: String,
    pub name: String,
    pub offset: String,
}

impl View for OffsetsDump {
    type V = (Seq<char>, Seq<char>, Seq<char>);

    open spec fn view(&self) -> (Seq<char>, Seq<char>, Seq<char>) {
        (self.kind@, self.name@, self.offset@)
    }
}

impl OffsetsDump {
    /// The line by which an offset is shown: `[+] kind name offset`.
    pub open spec fn display_text(v: (Seq<char>, Seq<char>, Seq<char>)) -> Seq<char> {
        "[+] "@ + v.0 + " "@ + v.1 + " "@ + v.2
    }

    /// The line by which this offset is shown: `[+] kind name offset`.
    pub fn to_display_string(&self) -> (r: String)
        ensures
            r@ == Self::display_text(self@),
    {
        let mut r = String::from_str("[+] ");
        r.append(self.kind.as_str());
        r.append(" ");
        r.append(self.name.as_str());
        r.append(" ");
        r.append(self.offset.as_str());
        r
    }

    /// Decides whether two offsets are the same in all three parts.
    pub fn same_as(&self, other: &OffsetsDump) -> (r: bool)
        ensures
            r == (self@ == other@),
    {
        self.kind == other.kind && self.name == other.name && self.offset == other.offset
    }
}

/// What the dumper tells of a PDB download: whether to go on, the PDB
/// reference that radare2 printed, and the notes to show on the error
/// output, in order.
pub struct PdbDownload {
    pub downloaded: bool,
    pub message: String,
    pub notes: Vec<String>,
}

/// The notes to show after `radare2 -c idpd`: in verbose mode, what radare2
/// wrote to its error output; and a warning carrying that output, unless it
/// says that the file was already downloaded.
pub open spec fn pdb_download_notes(stderr: Seq<char>, verbose: bool) -> Seq<Seq<char>> {
    (if verbose && stderr.len() > 0 {
        seq!["[VERBOSE] radare2 idpd stderr:\n"@ + stderr]
    } else {
        Seq::empty()
    }) + (if stderr.len() > 0 && !has_substring(stderr, "File already downloaded"@) {
        seq!["[WARN] Radare2 PDB download stderr: "@ + stderr]
    } else {
        Seq::empty()
    })
}

/// A line of `radare2 -c iV` output that gives the file version: trimmed,
/// it starts with the file version label.
pub open spec fn is_version_line(line: Seq<char>) -> bool {
    has_prefix(trim(line), EXPECTED_FILE_VERSION_INFO@)
}

/// The last line of `ls` that gives the file version.
pub open spec fn last_version_line(ls: Seq<Seq<char>>) -> Option<Seq<char>>
    decreases ls.len(),
{
    if ls.len() == 0 {
        None
    } else if is_version_line(ls.last()) {
        Some(ls.last())
    } else {
        last_version_line(ls.drop_last())
    }
}

/// The file version that the output of `radare2 -c iV` gives: any error
/// output is a failure; otherwise the last file version line, without its
/// label and trimmed; a failure where there is no such line.
pub open spec fn file_version(stdout: Seq<char>, stderr: Seq<char>) -> Result<
    Seq<char>,
    OffsetDumperError,
> {
    if stderr.len() > 0 {
        Err(OffsetDumperError::NtoskrnlDownloadingPdbError)
    } else {
        match last_version_line(lines(stdout)) {
            None => Err(OffsetDumperError::NtoskrnlVersionNotFoundError),
            Some(l) => Ok(trim(remove_all(l, EXPECTED_FILE_VERSION_INFO@))),
        }
    }
}

/// radare2's error output stops a dump: it is not empty and does not
/// mention an invalid type.
pub open spec fn dump_blocked(stderr: Seq<char>) -> bool {
    stderr.len() > 0 && !has_substring(stderr, "invalid type"@)
}

/// What `--all` reports from the output of `radare2 -c idpi`: every line of
/// it; a failure where the error output stops the dump or there is no line.
pub open spec fn all_symbols(stdout: Seq<char>, stderr: Seq<char>) -> Result<
    Seq<Seq<char>>,
    OffsetDumperError,
> {
    if dump_blocked(stderr) || lines(stdout).len() == 0 {
        Err(OffsetDumperError::NtoskrnlDumpingOffsetsError)
    } else {
        Ok(lines(stdout))
    }
}

/// The view of an optional string.
pub open spec fn opt_view(s: Option<&str>) -> Option<Seq<char>> {
    match s {
        Some(p) => Some(p@),
        None => None,
    }
}

/// The arguments of the radare2 run that dumps the PDB's types: quiet, no
/// base address, loading the custom PDB where one is given, then printing
/// the types of `path`.
pub open spec fn dump_args(path: Seq<char>, custom_pdb: Option<Seq<char>>) -> Seq<Seq<char>> {
    seq!["-qq"@, "-B 0"@] + match custom_pdb {
        Some(p) => seq!["-c"@, "idp "@ + p],
        None => Seq::empty(),
    } + seq!["-c"@, "idpi"@, path]
}

/// The dump arguments, written out: quiet, no base address, then, where a
/// custom PDB path `p` is given, `-c` and `idp ` followed by `p` itself,
/// character for character; then `-c`, `idpi` and the path of the file.
pub proof fn law_dump_args_literal(path: Seq<char>, custom_pdb: Option<Seq<char>>)
    ensures
        custom_pdb is None ==> dump_args(path, custom_pdb) == seq![
            "-qq"@,
            "-B 0"@,
            "-c"@,
            "idpi"@,
            path,
        ],
        custom_pdb matches Some(p) ==> dump_args(path, custom_pdb) == seq![
            "-qq"@,
            "-B 0"@,
            "-c"@,
            "idp "@ + p,
            "-c"@,
            "idpi"@,
            path,
        ],
        custom_pdb matches Some(p) ==> {
            let a = dump_args(path, custom_pdb)[3];
            &&& a.len() == 4 + p.len()
            &&& a.subrange(4, a.len() as int) == p
        },
{
    let a = dump_args(path, custom_pdb);
    match custom_pdb {
        None => {
            assert(a =~= seq!["-qq"@, "-B 0"@, "-c"@, "idpi"@, path]);
        },
        Some(p) => {
            assert(a =~= seq!["-qq"@, "-B 0"@, "-c"@, "idp "@ + p, "-c"@, "idpi"@, path]);
            proof_idp_len();
            assert(("idp "@ + p).subrange(4, 4 + p.len() as int) =~= p);
        },
    }
}

/// The literal `"idp "` has four characters.
proof fn proof_idp_len()
    ensures
        "idp "@.len() == 4,
{
    reveal_strlit("idp ");
}

/// Builds the strings `items`, in order.
fn strings_of(items: &[&str]) -> (r: Vec<String>)
    ensures
        r@.len() == items@.len(),
        forall|k: int| 0 <= k < items@.len() ==> (#[trigger] r@[k])@ == items@[k]@,
{
    let mut r: Vec<String> = Vec::new();
    for k in 0..items.len()
        invariant
            r@.len() == k,
            forall|j: int| 0 <= j < k ==> (#[trigger] r@[j])@ == items@[j]@,
    {
        r.push(String::from_str(items[k]));
    }
    r
}

/// `--all` reports every line that radare2 printed, and nothing else,
/// whenever its error output does not stop the dump and it printed a line.
pub proof fn law_all_symbols_are_the_lines(stdout: Seq<char>, stderr: Seq<char>)
    requires
        !dump_blocked(stderr),
        lines(stdout).len() > 0,
    ensures
        all_symbols(stdout, stderr) == Ok::<Seq<Seq<char>>, OffsetDumperError>(lines(stdout)),
{
}

/// Error output from radare2 stops both dumps with the same failure,
/// unless it mentions an invalid type.
pub proof fn law_dump_errors(stdout: Seq<char>, stderr: Seq<char>)
    requires
        dump_blocked(stderr),
    ensures
        all_symbols(stdout, stderr) == Err::<Seq<Seq<char>>, OffsetDumperError>(
            OffsetDumperError::NtoskrnlDumpingOffsetsError,
        ),
        symbols_report(stdout, stderr) == Some(
            Err::<Seq<(Seq<char>, Seq<char>, Seq<char>)>, OffsetDumperError>(
                OffsetDumperError::NtoskrnlDumpingOffsetsError,
            ),
        ),
{
}

/// The file version reported is trimmed: it neither starts nor ends with
/// whitespace.
pub proof fn law_file_version_trimmed(stdout: Seq<char>, stderr: Seq<char>)
    ensures
        file_version(stdout, stderr) matches Ok(v) ==> trim(v) == v,
{
    if let Ok(v) = file_version(stdout, stderr) {
        let l = last_version_line(lines(stdout))->0;
        law_trim_idempotent(remove_all(l, EXPECTED_FILE_VERSION_INFO@));
    }
}

/// The dumper itself; its methods decide on what radare2 printed.
pub struct Dumper;

impl Dumper {
    /// The arguments of `radare2 -V`, which prints radare2's version.
    pub fn radare_version_args() -> (r: Vec<String>)
        ensures
            r.deep_view() == seq!["-V"@],
    {
        let r = strings_of(&["-V"]);
        assert(r.deep_view() =~= seq!["-V"@]);
        r
    }

    /// The arguments of the radare2 run that downloads the PDB of `path`.
    pub fn radare_pdb_download_args(path: &str) -> (r: Vec<String>)
        ensures
            r.deep_view() == seq!["-c idpd"@, "-qq"@, path@],
    {
        let r = strings_of(&["-c idpd", "-qq", path]);
        assert(r.deep_view() =~= seq!["-c idpd"@, "-qq"@, path@]);
        r
    }

    /// The arguments of the radare2 run that prints the file information of
    /// `path`.
    pub fn radare_file_info_args(path: &str) -> (r: Vec<String>)
        ensures
            r.deep_view() == seq!["-c iV"@, "-qq"@, path@],
    {
        let r = strings_of(&["-c iV", "-qq", path]);
        assert(r.deep_view() =~= seq!["-c iV"@, "-qq"@, path@]);
        r
    }

    /// The arguments of the radare2 run that dumps the PDB's types
    /// (`dump_args`); a failure, before anything runs, where a custom PDB is
    /// given that does not exist.
    pub fn radare_dump_args(ntoskrnl_path: &str, custom_pdb: Option<&str>, pdb_exists: bool) -> (r:
        Result<Vec<String>, OffsetDumperError>)
        ensures
            custom_pdb is Some && !pdb_exists ==> r == Err::<Vec<String>, OffsetDumperError>(
                OffsetDumperError::PdbFileNotFoundError,
            ),
            !(custom_pdb is Some && !pdb_exists) ==> (r matches Ok(v) && v.deep_view() == dump_args(
                ntoskrnl_path@,
                opt_view(custom_pdb),
            )),
            custom_pdb is None ==> (r matches Ok(v) && v.deep_view() == seq![
                "-qq"@,
                "-B 0"@,
                "-c"@,
                "idpi"@,
                ntoskrnl_path@,
            ]),
            custom_pdb is Some && pdb_exists ==> (r matches Ok(v) && v.deep_view() == seq![
                "-qq"@,
                "-B 0"@,
                "-c"@,
                "idp "@ + custom_pdb->0@,
                "-c"@,
                "idpi"@,
                ntoskrnl_path@,
            ]),
    {
        proof {
            law_dump_args_literal(ntoskrnl_path@, opt_view(custom_pdb));
        }
        let mut r = strings_of(&["-qq", "-B 0"]);
        let ghost head = r.deep_view();
        assert(head =~= seq!["-qq"@, "-B 0"@]);
        match custom_pdb {
            Some(p) => {
                if !pdb_exists {
                    return Err(OffsetDumperError::PdbFileNotFoundError);
                }
                r.push(String::from_str("-c"));
                r.push(String::from_str("idp ").concat(p));
            },
            None => {},
        }
        r.push(String::from_str("-c"));
        r.push(String::from_str("idpi"));
        r.push(String::from_str(ntoskrnl_path));
        assert(r.deep_view() =~= dump_args(ntoskrnl_path@, opt_view(custom_pdb)));
        Ok(r)
    }

    /// What the dumper tells after `radare2 -c idpd`: it always goes on,
    /// with radare2's output trimmed as the PDB reference, and with the
    /// notes of `pdb_download_notes`.
    pub fn download_ntoskrnl_pdb(stdout: &str, stderr: &str, verbose: bool) -> (r: PdbDownload)
        ensures
            r.downloaded,
            r.message@ == trim(stdout@),
            r.notes.deep_view() == pdb_download_notes(stderr@, verbose),
    {
        let out = chars_of(stdout);
        let (a, b) = trim_bounds(out.as_slice());
        let message = cut(out.as_slice(), a, b);
        let mut notes: Vec<String> = Vec::new();
        let ghost first: Seq<Seq<char>> = if verbose && stderr@.len() > 0 {
            seq!["[VERBOSE] radare2 idpd stderr:\n"@ + stderr@]
        } else {
            Seq::empty()
        };
        if verbose && !stderr.is_empty() {
            notes.push(String::from_str("[VERBOSE] radare2 idpd stderr:\n").concat(stderr));
        }
        assert(notes.deep_view() =~= first);
        let err = chars_of(stderr);
        let marker = chars_of("File already downloaded");
        if !stderr.is_empty() && !contains(err.as_slice(), marker.as_slice()) {
            notes.push(String::from_str("[WARN] Radare2 PDB download stderr: ").concat(stderr));
        }
        assert(notes.deep_view() =~= pdb_download_notes(stderr@, verbose));
        PdbDownload { downloaded: true, message, notes }
    }

    /// The file version that the output of `radare2 -c iV` gives
    /// (`file_version`).
    pub fn fetch_ntoskrnl_info(stdout: &str, stderr: &str) -> (r: Result<String, OffsetDumperError>)
        ensures
            match r {
                Ok(v) => file_version(stdout@, stderr@) == Ok::<Seq<char>, OffsetDumperError>(v@),
                Err(e) => file_version(stdout@, stderr@) == Err::<Seq<char>, OffsetDumperError>(e),
            },
    {
        if !stderr.is_empty() {
            return Err(OffsetDumperError::NtoskrnlDownloadingPdbError);
        }
        let out = chars_of(stdout);
        let label = chars_of(EXPECTED_FILE_VERSION_INFO);
        let bounds = line_bounds(out.as_slice());
        let ghost ls = lines(out@);
        let mut found: Option<usize> = None;
        let mut k: usize = 0;
        assert(ls.take(0) =~= Seq::<Seq<char>>::empty());
        while k < bounds.len()
            invariant
                ls == lines(out@),
                label@ == EXPECTED_FILE_VERSION_INFO@,
                bounds@.len() == ls.len(),
                forall|j: int|
                    0 <= j < bounds@.len() ==> {
                        &&& #[trigger] bounds@[j].0 <= bounds@[j].1 <= out@.len()
                        &&& out@.subrange(bounds@[j].0 as int, bounds@[j].1 as int) == ls[j]
                    },
                k <= bounds@.len(),
                match found {
                    None => last_version_line(ls.take(k as int)) is None,
                    Some(j) => j < k && last_version_line(ls.take(k as int)) == Some(ls[j as int]),
                },
            decreases bounds@.len() - k,
        {
            let (a, b) = bounds[k];
            let line = &out.as_slice()[a..b];
            assert(line@ == ls[k as int]);
            let (ta, tb) = trim_bounds(line);
            let is_version = starts_with(&line[ta..tb], label.as_slice());
            proof {
                let t = ls.take(k + 1);
                assert(t.drop_last() =~= ls.take(k as int));
                assert(t.last() == ls[k as int]);
            }
            if is_version {
                found = Some(k);
            }
            k = k + 1;
        }
        assert(ls.take(k as int) =~= ls);
        match found {
            None => Err(OffsetDumperError::NtoskrnlVersionNotFoundError),
            Some(j) => {
                let (a, b) = bounds[j];
                let line = &out.as_slice()[a..b];
                let rest = removed_all(line, label.as_slice());
                let (ta, tb) = trim_bounds(rest.as_slice());
                Ok(cut(rest.as_slice(), ta, tb))
            },
        }
    }

    /// What `--all` reports from the output of `radare2 -c idpi`
    /// (`all_symbols`): its lines.
    pub fn dump_all_symbols(stdout: &str, stderr: &str) -> (r: Result<Vec<String>, OffsetDumperError>)
        ensures
            match r {
                Ok(v) => all_symbols(stdout@, stderr@) == Ok::<Seq<Seq<char>>, OffsetDumperError>(
                    v.deep_view(),
                ),
                Err(e) => all_symbols(stdout@, stderr@) == Err::<Seq<Seq<char>>, OffsetDumperError>(
                    e,
                ),
            },
    {
        if Self::stderr_stops_dump(stderr) {
            return Err(OffsetDumperError::NtoskrnlDumpingOffsetsError);
        }
        let out = chars_of(stdout);
        let bounds = line_bounds(out.as_slice());
        if bounds.len() == 0 {
            return Err(OffsetDumperError::NtoskrnlDumpingOffsetsError);
        }
        let ghost ls = lines(out@);
        let mut r: Vec<String> = Vec::new();
        let mut k: usize = 0;
        assert(ls.take(0) =~= Seq::<Seq<char>>::empty());
        while k < bounds.len()
            invariant
                k <= bounds@.len(),
                ls == lines(out@),
                bounds@.len() == ls.len(),
                forall|j: int|
                    0 <= j < bounds@.len() ==> {
                        &&& #[trigger] bounds@[j].0 <= bounds@[j].1 <= out@.len()
                        &&& out@.subrange(bounds@[j].0 as int, bounds@[j].1 as int) == ls[j]
                    },
                r.deep_view() == ls.take(k as int),
            decreases bounds@.len() - k,
        {
            let (a, b) = bounds[k];
            let line = cut(out.as_slice(), a, b);
            let ghost before = r.deep_view();
            r.push(line);
            assert(r.deep_view() =~= before.push(ls[k as int]));
            assert(ls.take(k + 1) =~= ls.take(k as int).push(ls[k as int]));
            k = k + 1;
        }
        assert(ls.take(bounds@.len() as int) =~= ls);
        Ok(r)
    }

    /// The lines of radare2's type dump that declare an expected symbol
    /// (`symbol_lines`), in order.
    pub fn select_symbol_lines(stdout: &str) -> (r: Vec<String>)
        ensures
            r.deep_view() == symbol_lines(stdout@),
            forall|i: int| 0 <= i < r@.len() ==> names_symbol(#[trigger] r@[i]@),
    {
        let out = chars_of(stdout);
        let table = expected_symbols_table();
        let header = chars_of("struct _");
        let inner = chars_of(" struct");
        let bounds = line_bounds(out.as_slice());
        let ghost ls = lines(out@);
        let mut ctx: (usize, usize) = (0, 0);
        let mut r: Vec<String> = Vec::new();
        let mut k: usize = 0;
        while k < bounds.len()
            invariant
                ls == lines(out@),
                is_symbol_table(table@),
                header@ == "struct _"@,
                inner@ == " struct"@,
                bounds@.len() == ls.len(),
                forall|j: int|
                    0 <= j < bounds@.len() ==> {
                        &&& #[trigger] bounds@[j].0 <= bounds@[j].1 <= out@.len()
                        &&& out@.subrange(bounds@[j].0 as int, bounds@[j].1 as int) == ls[j]
                    },
                k <= bounds@.len(),
                ctx.0 <= ctx.1 <= out@.len(),
                out@.subrange(ctx.0 as int, ctx.1 as int) == context_upto(ls, k as int),
                r.deep_view() == symbol_lines_upto(ls, k as int),
            decreases bounds@.len() - k,
        {
            let (a, b) = bounds[k];
            let line = &out.as_slice()[a..b];
            assert(line@ == ls[k as int]);
            if contains(line, header.as_slice()) && !contains(line, inner.as_slice()) {
                ctx = (a, b);
            }
            let context = &out.as_slice()[ctx.0..ctx.1];
            assert(context@ == context_upto(ls, k + 1));
            if declares_symbol(&table, line, context) {
                let ghost before = r.deep_view();
                r.push(cut(out.as_slice(), a, b));
                assert(r.deep_view() =~= before.push(ls[k as int]));
            }
            k = k + 1;
        }
        proof {
            lemma_symbol_lines_name_symbols(ls, ls.len() as int);
            assert forall|i: int| 0 <= i < r@.len() implies names_symbol(#[trigger] r@[i]@) by {
                assert(r@[i]@ == r.deep_view()[i]);
            }
        }
        r
    }

    /// What is reported from the symbol lines and the offsets found on them
    /// (`offsets_report`): for each line, the type and the name of the first
    /// expected symbol that it declares, with its offset; each entry once,
    /// where it first comes.
    pub fn offsets_from_lines(symbol_lines: &Vec<String>, offsets: &Vec<String>) -> (r: Result<
        Vec<OffsetsDump>,
        OffsetDumperError,
    >)
        requires
            symbol_lines@.len() == offsets@.len(),
            forall|i: int| 0 <= i < symbol_lines@.len() ==> names_symbol(#[trigger] symbol_lines@[i]@),
        ensures
            match r {
                Ok(v) => offsets_report(symbol_lines.deep_view(), offsets.deep_view()) == Ok::<
                    Seq<(Seq<char>, Seq<char>, Seq<char>)>,
                    OffsetDumperError,
                >(dump_views(v@)),
                Err(e) => offsets_report(symbol_lines.deep_view(), offsets.deep_view()) == Err::<
                    Seq<(Seq<char>, Seq<char>, Seq<char>)>,
                    OffsetDumperError,
                >(e),
            },
    {
        let table = expected_symbols_table();
        let ghost ls = symbol_lines.deep_view();
        let ghost os = offsets.deep_view();
        let ghost es = entries(ls, os);
        let n: usize = symbol_lines.len();
        let mut out: Vec<OffsetsDump> = Vec::new();
        let mut i: usize = 0;
        assert(es.take(0) =~= Seq::<(Seq<char>, Seq<char>, Seq<char>)>::empty());
        while i < n
            invariant
                is_symbol_table(table@),
                n == symbol_lines@.len(),
                n == offsets@.len(),
                ls == symbol_lines.deep_view(),
                os == offsets.deep_view(),
                es == entries(ls, os),
                forall|q: int| 0 <= q < n ==> names_symbol(#[trigger] symbol_lines@[q]@),
                i <= n,
                dump_views(out@) == dedup(es.take(i as int)),
            decreases n - i,
        {
            let line = chars_of(symbol_lines[i].as_str());
            let k = first_symbol_index(&table, line.as_slice());
            assert(names_symbol(symbol_lines@[i as int]@));
            let (kind, name) = kind_and_name(table[k].0.as_slice());
            let entry = OffsetsDump { kind, name, offset: offsets[i].clone() };
            assert(entry@ == es[i as int]);
            let mut present = false;
            let mut j: usize = 0;
            while j < out.len()
                invariant
                    j <= out@.len(),
                    present == exists|q: int| 0 <= q < j && (#[trigger] out@[q])@ == entry@,
                decreases out@.len() - j,
            {
                if out[j].same_as(&entry) {
                    present = true;
                }
                j = j + 1;
            }
            proof {
                let t = es.take(i + 1);
                assert(t.drop_last() =~= es.take(i as int));
                assert(t.last() == entry@);
                let d = dump_views(out@);
                if present {
                    let q = choose|q: int| 0 <= q < out@.len() && (#[trigger] out@[q])@ == entry@;
                    assert(d[q] == entry@);
                } else {
                    assert forall|q: int| 0 <= q < d.len() implies d[q] != entry@ by {
                        assert(d[q] == out@[q]@);
                    }
                }
            }
            if !present {
                let ghost before = out@;
                out.push(entry);
                assert(dump_views(out@) =~= dump_views(before).push(entry@));
            }
            i = i + 1;
        }
        assert(es.take(n as int) =~= es);
        if out.len() == 0 {
            Err(OffsetDumperError::NtoskrnlDumpingOffsetsError)
        } else {
            Ok(out)
        }
    }

    /// What the dumper reports from the output of `radare2 -c idpi`
    /// (`symbols_report`). `None` where some symbol line holds no `0x`
    /// followed by an offset digit. Each offset reported has the shape `0x`
    /// and offset digits. Where offsets are reported, `--all` on the same
    /// output reports all of its lines, and each entry is the one that a
    /// symbol line gives with an offset found on that very line; so its
    /// type, its name and its offset stand together on one line of the full
    /// dump.
    pub fn dump_ntoskrnl_symbols(stdout: &str, stderr: &str) -> (r: Option<
        Result<Vec<OffsetsDump>, OffsetDumperError>,
    >)
        ensures
            match r {
                None => symbols_report(stdout@, stderr@) is None,
                Some(Ok(v)) => symbols_report(stdout@, stderr@) == Some(
                    Ok::<Seq<(Seq<char>, Seq<char>, Seq<char>)>, OffsetDumperError>(
                        dump_views(v@),
                    ),
                ),
                Some(Err(e)) => symbols_report(stdout@, stderr@) == Some(
                    Err::<Seq<(Seq<char>, Seq<char>, Seq<char>)>, OffsetDumperError>(e),
                ),
            },
            r matches Some(Ok(v)) ==> {
                &&& all_symbols(stdout@, stderr@) == Ok::<Seq<Seq<char>>, OffsetDumperError>(
                    lines(stdout@),
                )
                &&& forall|j: int|
                    0 <= j < v@.len() ==> comes_from_symbol_line(stdout@, #[trigger] v@[j]@)
                &&& forall|j: int|
                    0 <= j < v@.len() ==> is_found_in_dump(stdout@, #[trigger] v@[j]@)
                &&& forall|j: int| 0 <= j < v@.len() ==> is_hex_offset((#[trigger] v@[j]).offset@)
            },
    {
        if Self::stderr_stops_dump(stderr) {
            return Some(Err(OffsetDumperError::NtoskrnlDumpingOffsetsError));
        }
        assert(!dump_blocked(stderr@));
        let selected = Self::select_symbol_lines(stdout);
        let ghost ls = selected.deep_view();
        let n: usize = selected.len();
        let mut offsets: Vec<String> = Vec::new();
        let mut i: usize = 0;
        assert(ls.take(0) =~= Seq::<Seq<char>>::empty());
        while i < n
            invariant
                n == selected@.len(),
                ls == selected.deep_view(),
                ls == symbol_lines(stdout@),
                !dump_blocked(stderr@),
                i <= n,
                offsets@.len() == i,
                line_offsets(ls.take(i as int)) == Some(offsets.deep_view()),
                forall|q: int| 0 <= q < i ==> has_substring(ls[q], (#[trigger] offsets@[q])@),
            decreases n - i,
        {
            let found = first_match(OFFSETS_REGEX, selected[i].as_str());
            proof {
                assert(selected@[i as int]@ == ls[i as int]);
                assert(ls.take(i + 1).drop_last() =~= ls.take(i as int));
                assert(ls.take(i + 1).last() == ls[i as int]);
            }
            match found {
                Some(Some(o)) => {
                    let ghost before = offsets.deep_view();
                    offsets.push(o);
                    assert(offsets.deep_view() =~= before.push(o@));
                },
                _ => {
                    proof {
                        assert(line_offsets(ls.take(i + 1)) is None);
                        lemma_line_offsets_prefix(ls, i + 1, n as int);
                        assert(ls.take(n as int) =~= ls);
                    }
                    return None;
                },
            }
            i = i + 1;
        }
        assert(ls.take(n as int) =~= ls);
        let report = Self::offsets_from_lines(&selected, &offsets);
        proof {
            if report is Ok {
                let v = report->Ok_0;
                let es = entries(ls, offsets.deep_view());
                lemma_dedup(es);
                assert forall|j: int| 0 <= j < v@.len() implies comes_from_symbol_line(
                    stdout@,
                    #[trigger] v@[j]@,
                ) by {
                    assert(dump_views(v@)[j] == v@[j]@);
                    assert(dedup(es).contains(v@[j]@));
                    assert(es.contains(v@[j]@));
                    let q = choose|q: int| 0 <= q < es.len() && es[q] == v@[j]@;
                    assert(offsets@[q]@ == offsets.deep_view()[q]);
                    assert(has_substring(ls[q], offsets@[q]@));
                    assert(is_entry_of_line(ls[q], v@[j]@));
                }
                assert forall|j: int| 0 <= j < v@.len() implies is_found_in_dump(
                    stdout@,
                    #[trigger] v@[j]@,
                ) by {
                    law_symbol_entry_in_full_dump(stdout@, v@[j]@);
                }
                law_report_has_lines(stdout@, stderr@);
                law_offsets_report(stdout@, stderr@);
                assert forall|j: int| 0 <= j < v@.len() implies is_hex_offset(
                    (#[trigger] v@[j]).offset@,
                ) by {
                    assert(dump_views(v@)[j] == v@[j]@);
                }
            }
        }
        Some(report)
    }

    /// Whether radare2's error output stops a dump (`dump_blocked`).
    pub fn stderr_stops_dump(stderr: &str) -> (r: bool)
        ensures
            r == dump_blocked(stderr@),
    {
        let err = chars_of(stderr);
        let allowed = chars_of("invalid type");
        !stderr.is_empty() && !contains(err.as_slice(), allowed.as_slice())
    }

    /// Whether the `ntoskrnl.exe` path is usable: it must name something that
    /// exists and is a regular file.
    pub fn is_ntoskrnl_valid(exists: bool, is_file: bool) -> (r: bool)
        ensures
            r == (exists && is_file),
    {
        exists && is_file
    }

    /// What the output of `radare2 -V` says of radare2: `version_check`.
    /// `None` where no version can be read from it.
    pub fn is_r2_expected_version(stdout: &str, stderr: &str) -> (r: Option<RadareVersionCheck>)
        ensures
            r == version_check(stdout@, stderr@),
            stderr@.len() > 0 ==> r == Some(RadareVersionCheck::ErrorOutput),
    {
        if !stderr.is_empty() {
            return Some(RadareVersionCheck::ErrorOutput);
        }
        match all_captures(SEMANTIC_VERSIONING_REGEX, stdout) {
            None => None,
            Some(caps) => match version_from_matches(&caps) {
                None => None,
                Some(v) => Some(
                    RadareVersionCheck::Detected {
                        version: v,
                        expected: v.major >= EXPECTED_RADARE_MAJOR_VERSION,
                    },
                ),
            },
        }
    }
}

} // verus!
