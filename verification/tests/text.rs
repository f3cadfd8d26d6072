use snap_marketplace::text::{
    align_left, align_right, byte_hex_text, chars_of, contains_text, decimal_text, ends_with,
    repeat_text, same_text, split_before_last, trim, unbracket,
};

#[test]
fn decimals() {
    assert_eq!(decimal_text(0), "0");
    assert_eq!(decimal_text(1_234_567_890), "1234567890");
    assert_eq!(decimal_text(u64::MAX), u64::MAX.to_string());
}

#[test]
fn hex_bytes() {
    assert_eq!(byte_hex_text(0), "00");
    assert_eq!(byte_hex_text(0x0f), "0f");
    assert_eq!(byte_hex_text(0xa5), "a5");
}

#[test]
fn alignment_pads_to_a_width() {
    assert_eq!(align_left("ab", 5), format!("{:<5}", "ab"));
    assert_eq!(align_right("ab", 5), format!("{:>5}", "ab"));
    assert_eq!(align_left("abcdef", 5), "abcdef");
    assert_eq!(align_right("é", 3), "  é");
    assert_eq!(repeat_text("─", 3), "───");
}

#[test]
fn substrings() {
    assert!(contains_text("0x1::marketplace::TokenRedeemed", "::marketplace::"));
    assert!(contains_text("abc", ""));
    assert!(!contains_text("abc", "abcd"));
    assert!(ends_with("0x1::marketplace::Marketplace", "::marketplace::Marketplace"));
    assert!(!ends_with("0x1::marketplace::Marketplace<X>", "::marketplace::Marketplace"));
    assert!(same_text("añb", "añb"));
    assert!(!same_text("ab", "abc"));
    assert_eq!(chars_of("añ"), vec!['a', 'ñ']);
}

#[test]
fn splitting_at_the_last_separator() {
    assert_eq!(split_before_last("10.0.0.1:80", ':'), Some("10.0.0.1"));
    assert_eq!(split_before_last("::1:80", ':'), Some("::1"));
    assert_eq!(split_before_last("localhost", ':'), None);
    assert_eq!(split_before_last(":", ':'), Some(""));
}

#[test]
fn trimming_takes_white_space_from_both_ends() {
    assert_eq!(trim("authorized\n"), "authorized");
    assert_eq!(trim("\t a b \u{3000}\r\n"), "a b");
    assert_eq!(trim(" \n"), "");
    assert_eq!(trim("\u{200b}x"), "\u{200b}x");
}

#[test]
fn brackets_come_off_in_pairs() {
    assert_eq!(unbracket("[::1]"), "::1");
    assert_eq!(unbracket("[]"), "");
    assert_eq!(unbracket("["), "[");
    assert_eq!(unbracket("[::1"), "[::1");
    assert_eq!(unbracket("::1]"), "::1]");
    assert_eq!(unbracket("[[a]]"), "[a]");
    assert_eq!(unbracket(""), "");
}
