use pluton::general::{size_to_descriptor, vec_to_verifying_key, KeyError};
use pluton::text::{
    chars_of, contains_char, join_with_spaces, len_utf8, parse_u64, same_text, split_whitespace,
    starts_with, text_of, trim, trim_end,
};

#[test]
fn trim_removes_white_space_at_both_ends() {
    assert_eq!(trim("  hello world \t\n"), "hello world");
    assert_eq!(trim("\u{3000}wide\u{3000}"), "wide");
    assert_eq!(trim("   "), "");
    assert_eq!(trim_end("  left  "), "  left");
}

#[test]
fn split_whitespace_gives_the_words() {
    let ws = split_whitespace("  /kick  bob   too loud ");
    assert_eq!(ws, vec!["/kick", "bob", "too", "loud"]);
    assert!(split_whitespace(" \t ").is_empty());
    assert_eq!(join_with_spaces(&ws, 2), "too loud");
    assert_eq!(join_with_spaces(&ws, 4), "");
}

#[test]
fn parse_u64_reads_decimal_numbers() {
    assert_eq!(parse_u64("42"), Some(42));
    assert_eq!(parse_u64("+7"), Some(7));
    assert_eq!(parse_u64("18446744073709551615"), Some(u64::MAX));
    assert_eq!(parse_u64("18446744073709551616"), None);
    assert_eq!(parse_u64(""), None);
    assert_eq!(parse_u64("+"), None);
    assert_eq!(parse_u64("-1"), None);
    assert_eq!(parse_u64("1a"), None);
}

#[test]
fn text_comparisons() {
    assert!(same_text("abc", "abc"));
    assert!(!same_text("abc", "abd"));
    assert!(!same_text("abc", "ab"));
    assert!(starts_with("/download 5", "/download "));
    assert!(!starts_with("/down", "/download "));
    assert!(contains_char("a b", ' '));
    assert!(!contains_char("ab", ' '));
}

#[test]
fn characters_and_their_widths() {
    let cs = chars_of("aé€😀");
    assert_eq!(cs, vec!['a', 'é', '€', '😀']);
    assert_eq!(cs.iter().map(|c| len_utf8(*c)).collect::<Vec<_>>(), vec![1, 2, 3, 4]);
    assert_eq!(text_of(&cs, 1, 3), "é€");
}

#[test]
fn size_descriptor_uses_decimal_units() {
    assert_eq!(size_to_descriptor(0), "0B");
    assert_eq!(size_to_descriptor(999), "999B");
    assert_eq!(size_to_descriptor(1_000), "1KB");
    assert_eq!(size_to_descriptor(12_345), "12KB");
    assert_eq!(size_to_descriptor(3_500_000), "3MB");
    assert_eq!(size_to_descriptor(7_000_000_000), "7GB");
}

#[test]
fn verifying_key_bytes_are_checked() {
    assert_eq!(vec_to_verifying_key(vec![1u8; 31]), Err(KeyError::InvalidKey));
    let (_secret, public) = key_pair("pw");
    assert_eq!(vec_to_verifying_key(public.to_vec()), Ok(public));
}

fn key_pair(password: &str) -> ([u8; 32], [u8; 32]) {
    let (ciphertext, nonce, salt, public) = pluton::crypto::generate_key_pair(password).unwrap();
    let secret = pluton::crypto::open_secret_key(
        &salt,
        &pluton::base64::to_base64(ciphertext),
        &pluton::base64::to_base64(nonce),
        password,
    )
    .unwrap();
    (secret, public)
}

#[test]
fn white_space_is_what_the_standard_library_calls_it() {
    for v in 0u32..0x3100 {
        if let Some(c) = char::from_u32(v) {
            let s = format!("a{c}b");
            let expected: Vec<String> = s.split_whitespace().map(|w| w.to_string()).collect();
            assert_eq!(split_whitespace(&s), expected, "code point {v:#x}");
        }
    }
}
