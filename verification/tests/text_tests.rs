use ntoskrnl_offsets::text::{
    chars_of, contains, cut, line_bounds, parse_i8_chars, removed_all, starts_with, trimmed,
};

fn s(v: &[char]) -> String {
    v.iter().collect()
}

fn lines_of(text: &str) -> Vec<String> {
    let c = chars_of(text);
    line_bounds(&c).into_iter().map(|(a, b)| cut(&c, a, b)).collect()
}

#[test]
fn chars_of_keeps_every_character() {
    assert_eq!(chars_of("aé\u{3000}z"), vec!['a', 'é', '\u{3000}', 'z']);
    assert!(chars_of("").is_empty());
}

#[test]
fn contains_finds_pieces() {
    let hay = chars_of("struct _EPROCESS");
    assert!(contains(&hay, &chars_of("struct _")));
    assert!(contains(&hay, &chars_of("EPROCESS")));
    assert!(contains(&hay, &chars_of("")));
    assert!(!contains(&hay, &chars_of(" struct")));
    assert!(!contains(&chars_of("ab"), &chars_of("abc")));
}

#[test]
fn starts_with_checks_prefix() {
    assert!(starts_with(&chars_of("FileVersion: 1"), &chars_of("FileVersion:")));
    assert!(!starts_with(&chars_of(" FileVersion:"), &chars_of("FileVersion:")));
    assert!(starts_with(&chars_of("x"), &chars_of("")));
}

#[test]
fn trimmed_removes_unicode_whitespace() {
    assert_eq!(s(&trimmed(&chars_of("  \t abc def \r\n"))), "abc def");
    assert_eq!(s(&trimmed(&chars_of("\u{a0}\u{3000}x\u{2028}"))), "x");
    assert_eq!(s(&trimmed(&chars_of(" \n "))), "");
    for sample in ["  a b  ", "\u{85}q", "", "x"] {
        assert_eq!(s(&trimmed(&chars_of(sample))), sample.trim());
    }
}

#[test]
fn trim_twice_is_trim_once() {
    for sample in ["  a  ", "\t\tb\u{2000}", "", "   ", "c d"] {
        let once = trimmed(&chars_of(sample));
        let twice = trimmed(&once);
        assert_eq!(once, twice);
    }
}

#[test]
fn lines_follow_str_lines() {
    for sample in ["a\r\nb\n", "a\n\nb", "", "\n", "a\r", "x\r\r\ny", "one", "\r\n\r\n"] {
        let expected: Vec<String> = sample.lines().map(|l| l.to_string()).collect();
        assert_eq!(lines_of(sample), expected, "on {:?}", sample);
    }
    assert_eq!(lines_of("a\r\nb\n"), vec!["a", "b"]);
    assert_eq!(lines_of("a\r"), vec!["a\r"]);
}

#[test]
fn lines_hold_no_newline() {
    for line in lines_of("p\nq\r\n\nr\rs\n") {
        assert!(!line.contains('\n'));
    }
}

#[test]
fn removed_all_drops_every_occurrence() {
    let r = removed_all(&chars_of("FileVersion: 10 FileVersion:x"), &chars_of("FileVersion:"));
    assert_eq!(s(&r), " 10 x");
    let r = removed_all(&chars_of("aaa"), &chars_of("aa"));
    assert_eq!(s(&r), "a");
    let r = removed_all(&chars_of("abc"), &chars_of(""));
    assert_eq!(s(&r), "abc");
    assert_eq!(s(&removed_all(&chars_of("FileFileVersion:Version:"), &chars_of("FileVersion:"))), "FileVersion:");
}

#[test]
fn parse_i8_follows_str_parse() {
    for sample in ["0", "5", "127", "128", "-128", "-129", "+7", "+", "-", "", "1a", "007", "\u{663}", " 1", "99999999999999999999"] {
        let expected = sample.parse::<i8>().ok();
        assert_eq!(parse_i8_chars(&chars_of(sample)), expected, "on {:?}", sample);
    }
    assert_eq!(parse_i8_chars(&chars_of("127")), Some(127));
    assert_eq!(parse_i8_chars(&chars_of("-128")), Some(-128));
    assert_eq!(parse_i8_chars(&chars_of("128")), None);
}
