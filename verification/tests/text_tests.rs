use print_agent::text::{
    chars_of, decimal_string, first_word, is_whitespace, split_lines, string_of, trim,
    trim_end_matches,
};

#[test]
fn trim_removes_surrounding_white_space() {
    assert_eq!(trim("  Zebra_GK420d \r\n").as_str(), "Zebra_GK420d");
    assert_eq!(trim("\u{3000}x\u{a0}").as_str(), "x");
    assert_eq!(trim(" \t ").as_str(), "");
    assert_eq!(trim("").as_str(), "");
    assert_eq!(trim("a b").as_str(), "a b");
}

#[test]
fn trim_agrees_with_std() {
    for s in ["", " ", "x", "  x  ", "\tx y\n", "\u{2003}x\u{205f}", "\u{85}x\u{1680}"] {
        assert_eq!(trim(s).as_str(), s.trim());
    }
}

#[test]
fn whitespace_agrees_with_std() {
    for u in 0u32..0x3100 {
        if let Some(c) = char::from_u32(u) {
            assert_eq!(is_whitespace(c), c.is_whitespace(), "U+{:04X}", u);
        }
    }
}

#[test]
fn trailing_slashes_are_removed() {
    assert_eq!(trim_end_matches("http://host:5050///", '/').as_str(), "http://host:5050");
    assert_eq!(trim_end_matches("http://host", '/').as_str(), "http://host");
    assert_eq!(trim_end_matches("///", '/').as_str(), "");
}

#[test]
fn lines_match_std_lines() {
    for s in ["", "a", "a\n", "a\r\nb", "\n", "\n\n", "a\nb\r\n\r\nc", "x\r", "a\n\nb\n"] {
        let v = chars_of(s);
        let got: Vec<String> = split_lines(&v);
        let want: Vec<String> = s.lines().map(String::from).collect();
        assert_eq!(got, want, "{:?}", s);
    }
}

#[test]
fn first_word_stops_at_white_space() {
    assert_eq!(first_word("HP_LaserJet accepting requests since").as_str(), "HP_LaserJet");
    assert_eq!(first_word("solo").as_str(), "solo");
    assert_eq!(first_word("").as_str(), "");
}

#[test]
fn decimal_notation() {
    assert_eq!(decimal_string(0).as_str(), "0");
    assert_eq!(decimal_string(7).as_str(), "7");
    assert_eq!(decimal_string(103).as_str(), "103");
    assert_eq!(decimal_string(u64::MAX).as_str(), "18446744073709551615");
}

#[test]
fn string_of_takes_a_range() {
    let v = chars_of("Grüße");
    assert_eq!(string_of(&v, 1, 4).as_str(), "rüß");
}
