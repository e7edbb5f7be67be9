use logo_designer::strings::{concat2, concat3, contains, is_blank, str_equal, substring, trim};

#[test]
fn trimming() {
    assert_eq!(trim("  a b \n\t"), "a b");
    assert_eq!(trim(""), "");
    assert_eq!(trim("\u{3000}x\u{a0}"), "x");
    assert!(is_blank(" \t\r\n"));
    assert!(is_blank(""));
    assert!(!is_blank(" a "));
}

#[test]
fn searching() {
    assert!(contains("image/svg+xml", "svg"));
    assert!(!contains("image/png", "svg"));
    assert!(contains("abc", ""));
    assert!(!contains("sv", "svg"));
    assert!(contains("svg", "svg"));
}

#[test]
fn equality_and_slices() {
    assert!(str_equal("é", "é"));
    assert!(!str_equal("e", "é"));
    assert!(!str_equal("ab", "abc"));
    assert_eq!(substring("héllo", 1, 3), "é");
    assert_eq!(concat3("a", "b", "c"), "abc");
    assert_eq!(concat2("a", ""), "a");
}

#[test]
fn whitespace_agrees_with_std_on_every_char() {
    for v in 0u32..=0x10FFFF {
        if let Some(c) = char::from_u32(v) {
            let text = c.to_string();
            assert_eq!(is_blank(&text), c.is_whitespace(), "U+{:04X}", v);
        }
    }
}

