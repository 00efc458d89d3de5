use market_surveillance::text::{
    contains_ignoring_case, contains_str, contains_text, decimal_text, join_texts, parse_u64, push_decimal,
    replace_text, split_text, text_is, trim_text, white_space, zero_padded_decimal,
};

fn xt(t: &str) -> String {
    t.to_string()
}

#[test]
fn decimals() {
    assert_eq!(decimal_text(0), "0");
    assert_eq!(decimal_text(7), "7");
    assert_eq!(decimal_text(1234567890), "1234567890");
    assert_eq!(decimal_text(u64::MAX), u64::MAX.to_string());
    let mut s = xt("n=");
    push_decimal(&mut s, 42);
    assert_eq!(s, "n=42");
}

#[test]
fn zero_padding() {
    assert_eq!(zero_padded_decimal(1, 6), "000001");
    assert_eq!(zero_padded_decimal(123456, 6), "123456");
    assert_eq!(zero_padded_decimal(1234567, 6), "1234567");
    assert_eq!(zero_padded_decimal(5, 0), "5");
}

#[test]
fn parsing_unsigned() {
    assert_eq!(parse_u64(&xt("42")), Some(42));
    assert_eq!(parse_u64(&xt("+7")), Some(7));
    assert_eq!(parse_u64(&xt("007")), Some(7));
    assert_eq!(parse_u64(&xt("18446744073709551615")), Some(u64::MAX));
    assert_eq!(parse_u64(&xt("18446744073709551616")), None);
    assert_eq!(parse_u64(&xt("")), None);
    assert_eq!(parse_u64(&xt("+")), None);
    assert_eq!(parse_u64(&xt("-1")), None);
    assert_eq!(parse_u64(&xt("1.5")), None);
    assert_eq!(parse_u64(&xt(" 1")), None);
}

#[test]
fn substring_search() {
    assert!(contains_text(&xt("TRADER-001"), &xt("DER")));
    assert!(contains_text(&xt("abc"), &xt("")));
    assert!(!contains_text(&xt("abc"), &xt("abcd")));
    assert!(contains_str(&xt("<PASTE_ID>"), "<PASTE"));
    assert!(!contains_str(&xt("dash-1"), "<PASTE"));
}

#[test]
fn search_ignoring_case_lowers_the_haystack() {
    assert!(contains_ignoring_case(&xt("TRADER-001"), &xt("trader")));
    assert!(!contains_ignoring_case(&xt("TRADER-001"), &xt("TRADER")));
}

#[test]
fn exact_text_comparison() {
    assert!(text_is(&xt("ALL"), "ALL"));
    assert!(!text_is(&xt("all"), "ALL"));
}

#[test]
fn replacing() {
    assert_eq!(replace_text(&xt("neo4j+s://h"), "neo4j+s://", "https://"), "https://h");
    assert_eq!(replace_text(&xt("aaa"), "aa", "b"), "ba");
    assert_eq!(replace_text(&xt("xyz"), "q", "r"), "xyz");
}

#[test]
fn splitting() {
    assert_eq!(split_text(&xt("a,b,,c"), ','), vec![xt("a"), xt("b"), xt(""), xt("c")]);
    assert_eq!(split_text(&xt(""), ','), vec![xt("")]);
    assert_eq!(split_text(&xt("a,"), ','), vec![xt("a"), xt("")]);
}

#[test]
fn trimming() {
    assert_eq!(trim_text(&xt("  a b \t\n")), "a b");
    assert_eq!(trim_text(&xt("\u{3000}x\u{a0}")), "x");
    assert_eq!(trim_text(&xt("   ")), "");
    for c in ['\t', '\n', ' ', '\u{85}', '\u{2003}', '\u{3000}', 'a', '\u{200b}'] {
        assert_eq!(white_space(c), c.is_whitespace());
    }
}

#[test]
fn joining() {
    assert_eq!(join_texts(&vec![xt("A"), xt("B"), xt("C")], " -> "), "A -> B -> C");
    assert_eq!(join_texts(&vec![xt("A")], ","), "A");
    assert_eq!(join_texts(&Vec::new(), ","), "");
}
