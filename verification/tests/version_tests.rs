use ntoskrnl_offsets::version::{version_from_matches, RadareVersion};

fn cap(groups: &[Option<&str>]) -> Vec<Option<String>> {
    groups.iter().map(|g| g.map(|t| t.to_string())).collect()
}

#[test]
fn first_match_with_three_numbers_gives_the_version() {
    let caps = vec![
        cap(&[Some("2"), Some("2"), None, None, None]),
        cap(&[Some("5.9.4"), Some("5"), Some("9"), Some("4"), None]),
        cap(&[Some("1.2.3"), Some("1"), Some("2"), Some("3"), None]),
    ];
    assert_eq!(version_from_matches(&caps), Some(RadareVersion { major: 5, minor: 9, patch: 4 }));
}

#[test]
fn short_matches_give_no_version() {
    let caps = vec![cap(&[Some("7")]), cap(&[Some("7.1"), Some("7"), Some("1")])];
    assert_eq!(version_from_matches(&caps), None);
    assert_eq!(version_from_matches(&vec![]), None);
}

#[test]
fn numbers_out_of_range_give_no_version() {
    let caps = vec![
        cap(&[Some("5.9.300"), Some("5"), Some("9"), Some("300"), None]),
        cap(&[Some("5.9.4"), Some("5"), Some("9"), Some("4"), None]),
    ];
    assert_eq!(version_from_matches(&caps), None);
}
