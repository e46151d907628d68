use enrichment::text::{chars_of, is_white_space, parse_u64, split_on, trim};

#[test]
fn splitting_keeps_empty_pieces() {
    assert_eq!(split_on("a,b,c", ','), vec!["a", "b", "c"]);
    assert_eq!(split_on("", ','), vec![""]);
    assert_eq!(split_on(",", ','), vec!["", ""]);
    assert_eq!(split_on("a,,b,", ','), vec!["a", "", "b", ""]);
    assert_eq!(split_on("no separator", ','), vec!["no separator"]);
    assert_eq!(split_on("é,ü", ','), vec!["é", "ü"]);
}

#[test]
fn splitting_agrees_with_std() {
    for text in ["ADT=1,CH=2", "a=b=c", "==", "x", "", "纬度=经度,x=1"] {
        for sep in [',', '='] {
            let expected: Vec<String> = text.split(sep).map(|s| s.to_string()).collect();
            assert_eq!(split_on(text, sep), expected);
        }
    }
}

#[test]
fn characters_one_by_one() {
    assert_eq!(chars_of("ab=c"), vec!['a', 'b', '=', 'c']);
    assert_eq!(chars_of("é√"), vec!['é', '√']);
    assert!(chars_of("").is_empty());
}

#[test]
fn reading_whole_numbers() {
    assert_eq!(parse_u64("120"), Some(120));
    assert_eq!(parse_u64("+120"), Some(120));
    assert_eq!(parse_u64("0"), Some(0));
    assert_eq!(parse_u64("000"), Some(0));
    assert_eq!(parse_u64("18446744073709551615"), Some(u64::MAX));
    assert_eq!(parse_u64("18446744073709551616"), None);
    assert_eq!(parse_u64(""), None);
    assert_eq!(parse_u64("+"), None);
    assert_eq!(parse_u64("-1"), None);
    assert_eq!(parse_u64("x120"), None);
    assert_eq!(parse_u64("120y"), None);
}

#[test]
fn reading_whole_numbers_agrees_with_std() {
    for text in [
        "0", "1", "+1", "-1", "", "+", "++1", "00012", "18446744073709551615",
        "18446744073709551616", "1844674407370955161500", "12a", "a12", "1 2", "１２", "1_000",
    ] {
        assert_eq!(parse_u64(text), text.parse::<u64>().ok());
    }
}

#[test]
fn trimming_white_space() {
    assert_eq!(trim("  USD "), "USD");
    assert_eq!(trim("USD"), "USD");
    assert_eq!(trim(" a b "), "a b");
    assert_eq!(trim(""), "");
    assert_eq!(trim(" \t\r\n"), "");
    assert_eq!(trim("\u{a0}1.1\u{3000}"), "1.1");
}

#[test]
fn trimming_agrees_with_std() {
    for text in [
        "", " ", "x", " x", "x ", "  x  y  ", "\t1.0876\n", "\u{2003}é\u{85}", "\u{200b}x",
        "\u{1680}\u{2028}\u{2029}\u{202f}\u{205f}z\u{b}\u{c}",
    ] {
        assert_eq!(trim(text), text.trim());
    }
    for code in 0u32..0x3100 {
        if let Some(c) = char::from_u32(code) {
            assert_eq!(is_white_space(c), c.is_whitespace());
        }
    }
}
