use lgp_iot_db::checksum::{checksum_from, checksum_matches};
use lgp_iot_db::models::humiture_data_v2::HumitureData;
use lgp_iot_db::models::humiture_datas::NewHumitureData;
use lgp_iot_db::timestamp::Timestamp;

const TWELVE: &str = "5aa546e85f0022005700aa6c6f6769bd0217051e0d1105010d010e010e001f0110011001ff011000ffffffffff010d02af02af02ae024f027b027a02ff028102ffffffffff02ae34006d";
const TWENTY_FOUR: &str = "5aa576aee6070000001f3b470000000002150b020a020400c200c200c200c200c300c300c300c400c500c600c600c700c700be00bf00bf00c000c100c100c200c300c400c600c602ab02af02b102b202b402b102b402b402af02ae02ac02a502a0029c0296028f028c0282027a026e026d0266025f025d62007c";

fn sample() -> HumitureData {
    HumitureData::new(
        0x01020304,
        0x0000111122223333,
        7,
        9,
        -205,
        655,
        Timestamp::new(2023, 5, 30, 13, 17, 5).unwrap(),
    )
}

#[test]
fn the_check_value_of_the_catalogue() {
    assert_eq!(checksum_from(b"123456789", 0), 0xA1);
    assert_eq!(checksum_from(b"xx123456789", 2), 0xA1);
}

#[test]
fn the_checksum_of_nothing_is_zero() {
    assert_eq!(checksum_from(&[], 0), 0);
    assert_eq!(checksum_from(&[1, 2, 3], 3), 0);
    assert_eq!(checksum_from(&[0, 0, 0, 0], 1), 0);
}

#[test]
fn frames_from_the_field_carry_this_checksum() {
    for text in [TWELVE, TWENTY_FOUR] {
        let bytes = hex::decode(text).unwrap();
        assert!(checksum_matches(&bytes));
        assert_eq!(checksum_from(&bytes[..bytes.len() - 1], 3), bytes[bytes.len() - 1]);
    }
    assert_eq!(hex::decode(TWELVE).unwrap()[73], 0x6d);
    assert_eq!(hex::decode(TWENTY_FOUR).unwrap()[121], 0x7c);
}

#[test]
fn encoded_frames_pass() {
    let bytes = sample().to_bytes();
    assert!(checksum_matches(&bytes));
    assert_eq!(bytes[29], checksum_from(&bytes[..29], 3));
    assert_eq!(bytes[29], 0x4C);
    let textual = NewHumitureData::new(
        "00000000",
        "0000111122223333",
        0,
        0,
        0,
        0,
        Timestamp::new(2023, 5, 30, 13, 17, 5).unwrap(),
    )
    .to_bytes();
    assert!(checksum_matches(&textual));
}

#[test]
fn equal_readings_give_equal_checksums() {
    let a = sample().to_bytes();
    let b = sample().to_bytes();
    assert_eq!(a, b);
    assert_eq!(a[29], b[29]);
}

#[test]
fn any_flipped_bit_under_the_checksum_changes_it() {
    for good in [sample().to_bytes(), hex::decode(TWELVE).unwrap()] {
        let last = good.len() - 1;
        for at in 3..last {
            for bit in 0..8 {
                let mut bad = good.clone();
                bad[at] ^= 1 << bit;
                assert!(!checksum_matches(&bad), "byte {} bit {}", at, bit);
                assert_ne!(checksum_from(&bad[..last], 3), good[last]);
            }
        }
    }
}

#[test]
fn the_first_three_bytes_are_not_covered() {
    let good = sample().to_bytes();
    for at in 0..3 {
        let mut other = good.clone();
        other[at] ^= 0xFF;
        assert!(checksum_matches(&other));
    }
}

#[test]
fn a_flipped_checksum_does_not_pass() {
    let mut bytes = sample().to_bytes();
    bytes[29] ^= 0x01;
    assert!(!checksum_matches(&bytes));
}

#[test]
fn short_buffers_do_not_pass() {
    assert!(!checksum_matches(&[]));
    assert!(!checksum_matches(&[0x5A, 0xA5, 0]));
    assert!(!checksum_matches(&[0, 0, 0]));
    // nothing is covered, and the checksum of nothing is zero
    assert!(checksum_matches(&[0x5A, 0xA5, 0, 0]));
    assert!(!checksum_matches(&[0x5A, 0xA5, 0, 1]));
}

#[test]
fn decoding_does_not_look_at_the_checksum() {
    let now = Timestamp::new(2023, 5, 30, 13, 17, 5).unwrap();
    let mut bytes = sample().to_bytes();
    bytes[29] ^= 0xFF;
    assert!(!checksum_matches(&bytes));
    assert_eq!(HumitureData::from_bytes(&bytes, 1, now).len(), 1);
}
