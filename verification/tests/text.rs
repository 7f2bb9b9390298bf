use sound_multiplexer_audio::text::{
    append_all, contains, cut, decimal_string, eq_ignore_ascii_case, has_name, join, lines,
    parse_u32, read_u32, split, split_whitespace, starts_with, to_ascii_lowercase, trim,
};

#[test]
fn texts_are_searched_and_split_as_std_does() {
    for s in ["", " ", "a", " a\tb ", "a,,b,", "\u{3000}x\u{85}", "a\r\nb\n\nc", "x\r", "\n"] {
        assert_eq!(trim(s), s.trim());
        assert_eq!(split(s, ','), s.split(',').collect::<Vec<_>>());
        assert_eq!(lines(s), s.lines().collect::<Vec<_>>());
        assert_eq!(split_whitespace(s), s.split_whitespace().collect::<Vec<_>>());
        assert_eq!(to_ascii_lowercase(s), s.to_ascii_lowercase());
        for t in ["", "a", ",", "b,", "\n"] {
            assert_eq!(contains(s, t), s.contains(t), "{:?} {:?}", s, t);
            assert_eq!(starts_with(s, t), s.starts_with(t), "{:?} {:?}", s, t);
        }
    }
    assert_eq!(cut("a\tb\tc", '\t'), ("a", Some("b\tc")));
    assert_eq!(cut("abc", '\t'), ("abc", None));
    assert!(eq_ignore_ascii_case("BthEnum", "bthENUM"));
    assert!(!eq_ignore_ascii_case("Ä", "ä"));
}

#[test]
fn numbers_read_back_what_was_written() {
    for n in [0u32, 7, 10, 99, 536870916, u32::MAX] {
        assert_eq!(decimal_string(n as u64), n.to_string());
        assert_eq!(parse_u32(&decimal_string(n as u64)), Some(n));
    }
    assert_eq!(decimal_string(u64::MAX), u64::MAX.to_string());
    for s in ["", "+", "-1", "+5", "4294967296", "12a", "007", " 1"] {
        assert_eq!(parse_u32(s), s.parse::<u32>().ok(), "{:?}", s);
    }
}

#[test]
fn lists_are_joined() {
    let names = vec!["a".to_string(), "b".to_string(), "".to_string()];
    assert_eq!(join(&names, ","), "a,b,");
    assert_eq!(join(&vec![], ","), "");
    assert_eq!(append_all(&["x", "", "y"]), "xy");
    assert!(has_name(&names, "b"));
    assert!(!has_name(&names, "c"));
}

#[test]
fn a_text_that_is_no_number_tells_why() {
    for s in [
        "", "+", "-", "-1", "++1", "+-1", "1+", "12a", "a12", " 1", "1 ", "4294967295", "4294967296",
        "+4294967296", "42949672950", "4294967295x", "4294967296x", "429496729x", "99999999999x",
        "x99999999999", "0000000000004294967295", "0000000000004294967296", "1\u{e9}", "\u{663}",
        "99999999999\u{e9}", "+99999999999x", "+12x99999999999",
    ] {
        let ours = read_u32(s).map_err(|why| why.message().to_string());
        let expected = s.parse::<u32>().map_err(|why| why.to_string());
        assert_eq!(ours, expected, "{:?}", s);
    }
}
