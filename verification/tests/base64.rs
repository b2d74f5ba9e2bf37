use pluton::base64::{
    base64_to_base64url, from_base64, from_base64url, is_decodable, to_base64,
    to_base64url,
};

#[test]
fn to_base64_basic_1() {
    let input = b"Many hands make light work.".to_vec();
    let output = to_base64(input);

    assert_eq!(output, "TWFueSBoYW5kcyBtYWtlIGxpZ2h0IHdvcmsu");
}

#[test]
fn to_base64_basic_2() {
    let input = b"Man".to_vec();
    let output = to_base64(input);

    assert_eq!(output, "TWFu");
}

#[test]
fn to_base64_rem_1() {
    let input = b"light work.".to_vec();
    let output = to_base64(input);

    assert_eq!(output, "bGlnaHQgd29yay4=");
}

#[test]
fn to_base64_rem_2() {
    let input = b"light work".to_vec();
    let output = to_base64(input);

    assert_eq!(output, "bGlnaHQgd29yaw==");
}

#[test]
fn from_base64_basic_1() {
    let input = "TWFueSBoYW5kcyBtYWtlIGxpZ2h0IHdvcmsu".to_string();
    let output = from_base64(input);

    assert_eq!(output, b"Many hands make light work.".to_vec());
}

#[test]
fn from_base64_basic_2() {
    let input = "TWFu".to_string();
    let output = from_base64(input);

    assert_eq!(output, b"Man".to_vec());
}

#[test]
fn from_base64_rem_1() {
    let input = "bGlnaHQgd29yay4=".to_string();
    let output = from_base64(input);

    assert_eq!(output, b"light work.".to_vec());
}

#[test]
fn from_base64_rem_2() {
    let input = "bGlnaHQgd29yaw==".to_string();
    let output = from_base64(input);

    assert_eq!(output, b"light work".to_vec());
}

#[test]
fn empty_input_round_trips() {
    assert_eq!(to_base64(Vec::new()), "");
    assert_eq!(from_base64(String::new()), Vec::<u8>::new());
}

#[test]
fn decoding_inverts_encoding_on_all_byte_values() {
    let data: Vec<u8> = (0u8..=255).collect();
    let text = to_base64(data.clone());
    assert!(is_decodable(&text));
    assert_eq!(from_base64(text), data);
}

#[test]
fn encoded_length_is_four_per_started_group() {
    for n in 0..20usize {
        let text = to_base64(vec![7u8; n]);
        assert_eq!(text.len(), 4 * ((n + 2) / 3));
    }
}

#[test]
fn a_foreign_character_decodes_to_nothing() {
    let text = "TW!u".to_string();
    assert!(is_decodable(&text));
    assert_eq!(from_base64(text), Vec::<u8>::new());
}

#[test]
fn a_short_final_group_is_not_decodable() {
    assert!(!is_decodable(&"TWF".to_string()));
    assert!(is_decodable(&"TWFu".to_string()));
}

#[test]
fn url_alphabet_replaces_plus_slash_and_padding() {
    let data = vec![0xfbu8, 0xff, 0xbf, 0x01];
    assert_eq!(to_base64(data.clone()), "+/+/AQ==");
    let url = to_base64url(data.clone());
    assert_eq!(url, "-_-_AQ..");
    assert_eq!(from_base64url(url), data);
}

#[test]
fn url_text_without_padding_is_padded_before_decoding() {
    assert_eq!(from_base64url("TWE".to_string()), b"Ma".to_vec());
    assert_eq!(from_base64url("TQ".to_string()), b"M".to_vec());
    assert_eq!(from_base64url("TQ..".to_string()), b"M".to_vec());
    assert_eq!(from_base64url("TWFu".to_string()), b"Man".to_vec());
    assert_eq!(from_base64url("-_-_AQ".to_string()), vec![0xfbu8, 0xff, 0xbf, 0x01]);
}

#[test]
fn standard_text_converts_to_url_text() {
    assert_eq!(base64_to_base64url("+/+/AQ==".to_string()), "-_-_AQ..");
}

#[test]
fn whole_groups_encode_independently_of_what_follows() {
    let a = b"Man".to_vec();
    let b = b"y hands".to_vec();
    let joined = [a.clone(), b.clone()].concat();
    assert_eq!(to_base64(joined.clone()), to_base64(a) + &to_base64(b));
    assert_eq!(to_base64(joined), "TWFueSBoYW5kcw==");
}

#[test]
fn url_text_decodes_with_its_padding_left_off() {
    for data in [b"".to_vec(), b"M".to_vec(), b"Ma".to_vec(), b"Man".to_vec(), vec![0xfbu8, 0xff, 0xbf, 0x01]] {
        let url = to_base64url(data.clone());
        let bare = url.trim_end_matches('.').to_string();
        assert_eq!(from_base64url(bare), data);
    }
}
