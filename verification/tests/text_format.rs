//! Text utilities: decimal rendering, padding, hex, trimming, splitting.

use livestream_dl::text;

#[test]
fn decimal_zero() {
    assert_eq!(text::u64_string(0), "0");
}

#[test]
fn decimal_large() {
    assert_eq!(text::u64_string(1234567890123), "1234567890123");
    assert_eq!(text::u64_string(u64::MAX), "18446744073709551615");
}

#[test]
fn decimal_padded() {
    assert_eq!(text::u64_string_pad(42, 10), "0000000042");
    assert_eq!(text::u64_string_pad(12345678901, 10), "12345678901");
}

#[test]
fn pad_left_spaces() {
    assert_eq!(text::pad_left("200", 4, b' '), " 200");
    assert_eq!(text::pad_left("12345", 4, b' '), "12345");
}

#[test]
fn hex_decode_pairs() {
    assert_eq!(text::hex_decode("0A0b10"), Some(vec![0x0a, 0x0b, 0x10]));
    assert_eq!(text::hex_decode(""), Some(vec![]));
    assert_eq!(text::hex_decode("0"), None);
    assert_eq!(text::hex_decode("zz"), None);
}

#[test]
fn trim_whitespace() {
    assert_eq!(text::trim_ascii("  mp3\n"), "mp3");
    assert_eq!(text::trim_ascii("\t \r"), "");
    assert_eq!(text::trim_ascii("x"), "x");
}

#[test]
fn trim_start_repeated_prefix() {
    assert_eq!(text::trim_start_matches("0x0x1f", "0x"), "1f");
    assert_eq!(text::trim_start_matches("...x.y", "."), "x.y");
    assert_eq!(text::trim_start_matches("abc", "0x"), "abc");
}

#[test]
fn split_on_tabs() {
    let pieces = text::split_char("a\tb\t\tc", '\t');
    assert_eq!(pieces, vec!["a", "b", "", "c"]);
    let one = text::split_char("abc", '\t');
    assert_eq!(one, vec!["abc"]);
}

#[test]
fn lower_ascii_only() {
    assert_eq!(text::ascii_lower("Video"), "video");
    assert_eq!(text::ascii_lower("MP3-X_y"), "mp3-x_y");
}

#[test]
fn str_equality() {
    assert!(text::str_eq("abc", "abc"));
    assert!(!text::str_eq("abc", "abd"));
    assert!(!text::str_eq("abc", "ab"));
}
