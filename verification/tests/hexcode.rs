use lgp_iot_db::hexcode::{parse_hex, to_hex};

#[test]
fn parse_reads_two_digits_per_byte() {
    assert_eq!(parse_hex("0102030f10"), Some(vec![1, 2, 3, 15, 16]));
    assert_eq!(parse_hex("48656c6c6f20776f726c6421"), Some(b"Hello world!".to_vec()));
    assert_eq!(parse_hex(""), Some(vec![]));
    assert_eq!(parse_hex("00ff"), Some(vec![0, 255]));
}

#[test]
fn parse_takes_both_cases() {
    assert_eq!(parse_hex("f9b4ca"), Some(vec![0xf9, 0xb4, 0xca]));
    assert_eq!(parse_hex("F9B4CA"), Some(vec![0xf9, 0xb4, 0xca]));
    assert_eq!(parse_hex("f9B4Ca"), Some(vec![0xf9, 0xb4, 0xca]));
    assert_eq!(parse_hex("aAfF09"), Some(vec![0xaa, 0xff, 0x09]));
}

#[test]
fn parse_refuses_odd_lengths_and_other_characters() {
    assert_eq!(parse_hex("123"), None);
    assert_eq!(parse_hex("f"), None);
    assert_eq!(parse_hex("foo"), None);
    assert_eq!(parse_hex("fo"), None);
    assert_eq!(parse_hex("0g"), None);
    assert_eq!(parse_hex("g0"), None);
    assert_eq!(parse_hex("+1"), None);
    assert_eq!(parse_hex(" 1"), None);
    assert_eq!(parse_hex("0x10"), None);
    assert_eq!(parse_hex("/0"), None);
    assert_eq!(parse_hex(":0"), None);
    assert_eq!(parse_hex("@0"), None);
    assert_eq!(parse_hex("G0"), None);
    assert_eq!(parse_hex("`0"), None);
}

#[test]
fn parse_refuses_characters_outside_ascii() {
    assert_eq!(parse_hex("é"), None);
    assert_eq!(parse_hex("éé"), None);
    assert_eq!(parse_hex("00é0"), None);
    assert_eq!(parse_hex("１２"), None);
    assert_eq!(parse_hex("€0"), None);
}

#[test]
fn to_hex_writes_lower_case() {
    assert_eq!(to_hex(&[1, 2, 3, 15, 16]), "0102030f10");
    assert_eq!(to_hex(b"Hello world!"), "48656c6c6f20776f726c6421");
    assert_eq!(to_hex(&[]), "");
    assert_eq!(to_hex(&[0xAB, 0xCD, 0xEF]), "abcdef");
    assert_eq!(to_hex(&[0x00, 0x09, 0x0a, 0x90, 0xa0, 0xff]), "00090a90a0ff");
}

#[test]
fn text_written_for_bytes_spells_them() {
    let all: Vec<u8> = (0u8..=255).collect();
    let text = to_hex(&all);
    assert_eq!(text.len(), 512);
    assert_eq!(parse_hex(&text), Some(all));
}

#[test]
fn lower_case_text_comes_back() {
    for text in ["", "00", "0000111122223333", "deadbeef", "0123456789abcdef"] {
        assert_eq!(to_hex(&parse_hex(text).unwrap()), text);
    }
    assert_eq!(to_hex(&parse_hex("DEADBEEF").unwrap()), "deadbeef");
}
