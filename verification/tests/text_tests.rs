use ghnf::text::{non_empty_lines, parse_u64, str_chars, u64_to_string};

#[test]
fn parse_u64_plain_digits() {
    assert_eq!(parse_u64("0"), Some(0));
    assert_eq!(parse_u64("7"), Some(7));
    assert_eq!(parse_u64("1024"), Some(1024));
    assert_eq!(parse_u64("18446744073709551615"), Some(u64::MAX));
}

#[test]
fn parse_u64_accepts_leading_plus() {
    assert_eq!(parse_u64("+42"), Some(42));
}

#[test]
fn parse_u64_rejects_bad_input() {
    assert_eq!(parse_u64(""), None);
    assert_eq!(parse_u64("+"), None);
    assert_eq!(parse_u64("-1"), None);
    assert_eq!(parse_u64("12a"), None);
    assert_eq!(parse_u64(" 12"), None);
    assert_eq!(parse_u64("18446744073709551616"), None);
    assert_eq!(parse_u64("99999999999999999999999"), None);
}

#[test]
fn parse_u64_matches_std() {
    for s in ["0", "+0", "007", "4294967296", "x", "9 9", "18446744073709551615"] {
        assert_eq!(parse_u64(s), s.parse::<u64>().ok(), "input {:?}", s);
    }
}

#[test]
fn u64_to_string_exact() {
    assert_eq!(u64_to_string(0), "0");
    assert_eq!(u64_to_string(9), "9");
    assert_eq!(u64_to_string(10), "10");
    assert_eq!(u64_to_string(987654321), "987654321");
    assert_eq!(u64_to_string(u64::MAX), "18446744073709551615");
}

#[test]
fn str_chars_roundtrip() {
    let cs = str_chars("a\u{e9}z");
    assert_eq!(cs, vec!['a', '\u{e9}', 'z']);
}

#[test]
fn non_empty_lines_splits_and_drops_blanks() {
    let lines = non_empty_lines("alpha\n\nbeta\ngamma\n");
    assert_eq!(lines, vec!["alpha".to_string(), "beta".to_string(), "gamma".to_string()]);
}

#[test]
fn non_empty_lines_of_empty_text() {
    assert_eq!(non_empty_lines(""), Vec::<String>::new());
    assert_eq!(non_empty_lines("\n\n"), Vec::<String>::new());
}
