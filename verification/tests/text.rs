use pgwire::text;

#[test]
fn text_is_split_at_the_first_separators() {
    assert_eq!(text::splitn("a,b,c,d,e", 4, ','), vec!["a", "b", "c", "d,e"]);
    assert_eq!(text::splitn("a,b", 4, ','), vec!["a", "b"]);
    assert_eq!(text::splitn(",", 3, ','), vec!["", ""]);
    assert_eq!(text::splitn("", 3, ','), vec![""]);
    assert_eq!(text::splitn("a,b", 1, ','), vec!["a,b"]);
    assert!(text::splitn("a,b", 0, ',').is_empty());
    assert_eq!(text::splitn("\u{e9},\u{1f980},x", 2, ','), vec!["\u{e9}", "\u{1f980},x"]);
}

#[test]
fn prefixes() {
    assert_eq!(text::strip_prefix("n=user", "n="), Some("user"));
    assert_eq!(text::strip_prefix("n=", "n="), Some(""));
    assert_eq!(text::strip_prefix("n", "n="), None);
    assert_eq!(text::strip_prefix("m=x", "n="), None);
    assert!(text::starts_with("p=tls-unique", "p="));
    assert!(!text::starts_with("p", "p="));
}

#[test]
fn equality() {
    assert!(text::equal("a\u{e9}", "a\u{e9}"));
    assert!(!text::equal("a", "A"));
    assert!(text::equal_bytes(&[1, 2], &[1, 2]));
    assert!(!text::equal_bytes(&[1, 2], &[1, 3]));
    assert!(!text::equal_bytes(&[1, 2], &[1]));
}

#[test]
fn numbers_and_byte_lists() {
    assert_eq!(text::format_decimal(0), "0");
    assert_eq!(text::format_decimal(4096), "4096");
    assert_eq!(text::format_decimal(usize::MAX), format!("{}", usize::MAX));
    assert_eq!(text::format_byte_list(&[]), "[]");
    assert_eq!(text::format_byte_list(&[7]), "[7]");
    assert_eq!(text::format_byte_list(&[0, 44, 255]), format!("{:?}", [0u8, 44, 255]));
    assert_eq!(text::utf8_bytes("a\u{e9}"), vec![0x61, 0xc3, 0xa9]);
}
