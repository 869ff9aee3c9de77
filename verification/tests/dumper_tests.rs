use ntoskrnl_offsets::dumper::{Dumper, OffsetsDump};
use ntoskrnl_offsets::version::{RadareVersion, RadareVersionCheck};
use ntoskrnl_offsets::errors::OffsetDumperError;

fn dump(kind: &str, name: &str, offset: &str) -> OffsetsDump {
    OffsetsDump { kind: kind.to_string(), name: name.to_string(), offset: offset.to_string() }
}

fn sample() -> String {
    [
        "struct _EPROCESS {",
        "  0x448 _LIST_ENTRY ActiveProcessLinks;",
        "  0x5a8 char ImageFileName[15];",
        "  0x550 _PEB* Peb;",
        "  struct _KAPC_STATE ApcState;",
        "struct _KTHREAD",
        "  0x5a8 char ImageFileName[15];",
        "  0x98 _KAPC_STATE ApcState;",
        "  0x448 _LIST_ENTRY ActiveProcessLinks;",
        "  0x440 _LIST_ENTRY ActiveProcessLinks;",
        "  0x10 int32_t KernelTime;",
        "no offset here",
        "",
    ]
    .join("\n")
}

#[test]
fn ntoskrnl_path_must_be_an_existing_file() {
    assert!(Dumper::is_ntoskrnl_valid(true, true));
    assert!(!Dumper::is_ntoskrnl_valid(true, false));
    assert!(!Dumper::is_ntoskrnl_valid(false, false));
}

#[test]
fn version_five_is_accepted() {
    let r = Dumper::is_r2_expected_version("radare2 5.9.4 32177 @ linux-x86-64\ncommit: abc\n", "");
    assert_eq!(
        r,
        Some(RadareVersionCheck::Detected {
            version: RadareVersion { major: 5, minor: 9, patch: 4 },
            expected: true,
        })
    );
    assert!(r.unwrap().passes());
}

#[test]
fn version_four_is_refused() {
    let r = Dumper::is_r2_expected_version("radare2 4.5.1 0 @ linux\n", "").unwrap();
    assert_eq!(
        r,
        RadareVersionCheck::Detected {
            version: RadareVersion { major: 4, minor: 5, patch: 1 },
            expected: false,
        }
    );
    assert!(!r.passes());
}

#[test]
fn error_output_refuses_radare2() {
    let r = Dumper::is_r2_expected_version("radare2 5.9.4\n", "boom").unwrap();
    assert_eq!(r, RadareVersionCheck::ErrorOutput);
    assert!(!r.passes());
}

#[test]
fn unreadable_version_gives_none() {
    assert_eq!(Dumper::is_r2_expected_version("no version at all", ""), None);
    assert_eq!(Dumper::is_r2_expected_version("radare2 5.9.300", ""), None);
}

#[test]
fn pdb_download_always_goes_on() {
    let r = Dumper::download_ntoskrnl_pdb("  ntkrnlmp.pdb \n", "", true);
    assert!(r.downloaded);
    assert_eq!(r.message, "ntkrnlmp.pdb");
    assert!(r.notes.is_empty());
}

#[test]
fn pdb_download_notes() {
    let r = Dumper::download_ntoskrnl_pdb("x", "File already downloaded", true);
    assert!(r.downloaded);
    assert_eq!(r.notes, vec!["[VERBOSE] radare2 idpd stderr:\nFile already downloaded".to_string()]);
    let r = Dumper::download_ntoskrnl_pdb("x", "File already downloaded", false);
    assert!(r.notes.is_empty());
    let r = Dumper::download_ntoskrnl_pdb("x", "oops", false);
    assert_eq!(r.notes, vec!["[WARN] Radare2 PDB download stderr: oops".to_string()]);
    let r = Dumper::download_ntoskrnl_pdb("x", "oops", true);
    assert_eq!(r.notes.len(), 2);
}

#[test]
fn file_version_is_the_last_version_line() {
    let out = "Signature: x\n  FileVersion: 10.0.19041.1 (WinBuild)  \nProductVersion: 10\nFileVersion:   10.0.22621.2506 \n";
    assert_eq!(Dumper::fetch_ntoskrnl_info(out, ""), Ok("10.0.22621.2506".to_string()));
    let out = "  FileVersion: 10.0.19041.1 (WinBuild.160101.0800)\r\n";
    assert_eq!(Dumper::fetch_ntoskrnl_info(out, ""), Ok("10.0.19041.1 (WinBuild.160101.0800)".to_string()));
}

#[test]
fn file_version_failures() {
    assert_eq!(
        Dumper::fetch_ntoskrnl_info("FileVersion: 1", "error"),
        Err(OffsetDumperError::NtoskrnlDownloadingPdbError)
    );
    assert_eq!(
        Dumper::fetch_ntoskrnl_info("ProductVersion: 1\n", ""),
        Err(OffsetDumperError::NtoskrnlVersionNotFoundError)
    );
}

#[test]
fn all_symbols_are_the_lines() {
    assert_eq!(
        Dumper::dump_all_symbols("a\nb\r\n\nc", ""),
        Ok(vec!["a".to_string(), "b".to_string(), "".to_string(), "c".to_string()])
    );
    assert_eq!(Dumper::dump_all_symbols("a\n", "invalid type 0x1"), Ok(vec!["a".to_string()]));
    assert_eq!(Dumper::dump_all_symbols("a\n", "fatal"), Err(OffsetDumperError::NtoskrnlDumpingOffsetsError));
    assert_eq!(Dumper::dump_all_symbols("", ""), Err(OffsetDumperError::NtoskrnlDumpingOffsetsError));
}

#[test]
fn dump_arguments() {
    assert_eq!(
        Dumper::radare_dump_args("C:/nt.exe", None, false),
        Ok(vec!["-qq", "-B 0", "-c", "idpi", "C:/nt.exe"].into_iter().map(String::from).collect())
    );
    assert_eq!(
        Dumper::radare_dump_args("nt.exe", Some("k.pdb"), true),
        Ok(vec!["-qq", "-B 0", "-c", "idp k.pdb", "-c", "idpi", "nt.exe"].into_iter().map(String::from).collect())
    );
    assert_eq!(
        Dumper::radare_dump_args("nt.exe", Some("k.pdb"), false),
        Err(OffsetDumperError::PdbFileNotFoundError)
    );
    assert_eq!(Dumper::radare_version_args(), vec!["-V".to_string()]);
    assert_eq!(Dumper::radare_pdb_download_args("n"), vec!["-c idpd".to_string(), "-qq".to_string(), "n".to_string()]);
    assert_eq!(Dumper::radare_file_info_args("n"), vec!["-c iV".to_string(), "-qq".to_string(), "n".to_string()]);
}

#[test]
fn symbol_lines_follow_their_structure() {
    let lines = Dumper::select_symbol_lines(&sample());
    assert_eq!(
        lines,
        vec![
            "  0x448 _LIST_ENTRY ActiveProcessLinks;",
            "  0x5a8 char ImageFileName[15];",
            "  0x550 _PEB* Peb;",
            "  0x98 _KAPC_STATE ApcState;",
            "  0x448 _LIST_ENTRY ActiveProcessLinks;",
            "  0x440 _LIST_ENTRY ActiveProcessLinks;",
        ]
    );
}

#[test]
fn offsets_are_reported_once_each() {
    let r = Dumper::dump_ntoskrnl_symbols(&sample(), "").unwrap().unwrap();
    assert_eq!(
        r,
        vec![
            dump("_LIST_ENTRY", "ActiveProcessLinks", "0x448"),
            dump("char", "ImageFileName[15]", "0x5a8"),
            dump("_PEB*", "Peb", "0x550"),
            dump("_KAPC_STATE", "ApcState", "0x98"),
            dump("_LIST_ENTRY", "ActiveProcessLinks", "0x440"),
        ]
    );
    for (i, a) in r.iter().enumerate() {
        for b in &r[i + 1..] {
            assert_ne!(a, b);
        }
    }
}

#[test]
fn symbols_report_failures() {
    assert_eq!(
        Dumper::dump_ntoskrnl_symbols(&sample(), "fatal"),
        Some(Err(OffsetDumperError::NtoskrnlDumpingOffsetsError))
    );
    assert_eq!(
        Dumper::dump_ntoskrnl_symbols("nothing useful\n", "invalid type x"),
        Some(Err(OffsetDumperError::NtoskrnlDumpingOffsetsError))
    );
    assert_eq!(Dumper::dump_ntoskrnl_symbols("  _LIST_ENTRY ActiveProcessLinks\n", ""), None);
}

#[test]
fn offsets_from_given_lines() {
    let lines = vec!["x _PEB* Peb".to_string(), "y _PEB* Peb".to_string(), "void* KiServiceTable".to_string()];
    let offsets = vec!["0x1".to_string(), "0x1".to_string(), "0x2".to_string()];
    assert_eq!(
        Dumper::offsets_from_lines(&lines, &offsets),
        Ok(vec![dump("_PEB*", "Peb", "0x1"), dump("void*", "KiServiceTable", "0x2")])
    );
    assert_eq!(
        Dumper::offsets_from_lines(&vec![], &vec![]),
        Err(OffsetDumperError::NtoskrnlDumpingOffsetsError)
    );
}

#[test]
fn offsets_are_shown_on_one_line() {
    assert_eq!(dump("_PEB*", "Peb", "0x550").to_display_string(), "[+] _PEB* Peb 0x550");
    assert!(dump("a", "b", "c").same_as(&dump("a", "b", "c")));
    assert!(!dump("a", "b", "c").same_as(&dump("a", "b", "d")));
}

#[test]
fn error_output_that_stops_a_dump() {
    assert!(Dumper::stderr_stops_dump("fatal"));
    assert!(!Dumper::stderr_stops_dump(""));
    assert!(!Dumper::stderr_stops_dump("WARN: invalid type at 0x10"));
}

#[test]
fn reported_entries_stand_on_one_line_of_the_full_dump() {
    let out = sample();
    let reported = Dumper::dump_ntoskrnl_symbols(&out, "").unwrap().unwrap();
    let all = Dumper::dump_all_symbols(&out, "").unwrap();
    for e in &reported {
        assert!(all
            .iter()
            .any(|l| l.contains(&e.offset) && l.contains(&e.name) && l.contains(&e.kind)));
    }
}

#[test]
fn offset_is_leftmost_hex_run() {
    let out = "struct _EPROCESS\n  0X1 0xZZ 0xAB 0xabcg9 _PEB* Peb;\n";
    let r = Dumper::dump_ntoskrnl_symbols(out, "").unwrap().unwrap();
    assert_eq!(r, vec![dump("_PEB*", "Peb", "0xabc")]);
    let out = "struct _EPROCESS\n  0xAB _PEB* Peb;\n";
    assert_eq!(Dumper::dump_ntoskrnl_symbols(out, ""), None);
}

#[test]
fn reported_offsets_have_hex_shape() {
    for e in Dumper::dump_ntoskrnl_symbols(&sample(), "").unwrap().unwrap() {
        assert!(e.offset.starts_with("0x"));
        assert!(e.offset.len() >= 3);
        assert!(e.offset[2..].chars().all(|c| c.is_ascii_digit() || ('a'..='f').contains(&c)));
    }
}
