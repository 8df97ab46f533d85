use feed_ingest::text::{decimal, same_text, trim};

#[test]
fn decimal_renders_without_padding() {
    assert_eq!(decimal(0), "0");
    assert_eq!(decimal(7), "7");
    assert_eq!(decimal(10), "10");
    assert_eq!(decimal(1905), "1905");
    assert_eq!(decimal(u64::MAX), "18446744073709551615");
}

#[test]
fn same_text_compares_contents() {
    assert!(same_text("item", "item"));
    assert!(!same_text("item", "Item"));
    assert!(!same_text("item", "items"));
    assert!(same_text("", ""));
}

#[test]
fn trim_removes_white_space_at_both_ends_only() {
    assert_eq!(trim("  a b \t\n"), "a b");
    assert_eq!(trim("a"), "a");
    assert_eq!(trim(""), "");
    assert_eq!(trim(" \n\t "), "");
    assert_eq!(trim("\u{a0}\u{2003}é x\u{3000}"), "é x");
    assert_eq!(trim("x  "), "x");
    assert_eq!(trim("  x"), "x");
    let long = format!("{}{}{}", " ".repeat(1000), "mid dle", "\n".repeat(1000));
    assert_eq!(trim(&long), long.trim());
}
