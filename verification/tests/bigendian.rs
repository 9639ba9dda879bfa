use lgp_iot_db::bigendian::{
    push_i16, push_i32, push_i64, push_u16, push_u32, push_u64, read_i16, read_i32, read_i64,
    read_u16, read_u32, read_u64,
};

#[test]
fn unsigned_numbers_are_written_most_significant_first() {
    let mut out = vec![0xEE];
    push_u16(&mut out, 0x1234);
    push_u32(&mut out, 0x89ABCDEF);
    push_u64(&mut out, 0x0102030405060708);
    assert_eq!(
        out,
        vec![0xEE, 0x12, 0x34, 0x89, 0xAB, 0xCD, 0xEF, 1, 2, 3, 4, 5, 6, 7, 8]
    );
}

#[test]
fn writing_agrees_with_the_standard_library() {
    for v in [0u16, 1, 255, 256, 0x7FFF, 0x8000, u16::MAX] {
        let mut out = Vec::new();
        push_u16(&mut out, v);
        assert_eq!(out, v.to_be_bytes().to_vec());
    }
    for v in [0i16, 1, -1, 255, -205, -400, 1000, i16::MIN, i16::MAX] {
        let mut out = Vec::new();
        push_i16(&mut out, v);
        assert_eq!(out, v.to_be_bytes().to_vec());
    }
    for v in [0u32, 1, 0x00FF_FF00, 0x8000_0000, u32::MAX] {
        let mut out = Vec::new();
        push_u32(&mut out, v);
        assert_eq!(out, v.to_be_bytes().to_vec());
    }
    for v in [0i32, 1, -1, 0x6c6f6769, i32::MIN, i32::MAX] {
        let mut out = Vec::new();
        push_i32(&mut out, v);
        assert_eq!(out, v.to_be_bytes().to_vec());
    }
    for v in [0u64, 1, 0x0000111122223333, 0x8000_0000_0000_0000, u64::MAX] {
        let mut out = Vec::new();
        push_u64(&mut out, v);
        assert_eq!(out, v.to_be_bytes().to_vec());
    }
    for v in [0i64, 1, -1, 0x0000111122223333, i64::MIN, i64::MAX] {
        let mut out = Vec::new();
        push_i64(&mut out, v);
        assert_eq!(out, v.to_be_bytes().to_vec());
    }
}

#[test]
fn signed_numbers_are_written_as_twos_complement() {
    let mut out = Vec::new();
    push_i16(&mut out, -205);
    push_i32(&mut out, -2);
    push_i64(&mut out, i64::MIN);
    assert_eq!(
        out,
        vec![0xFF, 0x33, 0xFF, 0xFF, 0xFF, 0xFE, 0x80, 0, 0, 0, 0, 0, 0, 0]
    );
}

#[test]
fn reading_takes_the_bytes_at_the_offset() {
    let bytes = [0xAA, 0x12, 0x34, 0x56, 0x78, 0x9A, 0xBC, 0xDE, 0xF0, 0x11];
    assert_eq!(read_u16(&bytes, 0), 0xAA12);
    assert_eq!(read_u16(&bytes, 1), 0x1234);
    assert_eq!(read_u16(&bytes, 8), 0xF011);
    assert_eq!(read_u32(&bytes, 1), 0x12345678);
    assert_eq!(read_u32(&bytes, 6), 0xBCDEF011);
    assert_eq!(read_u64(&bytes, 1), 0x123456789ABCDEF0);
    assert_eq!(read_u64(&bytes, 2), 0x3456789ABCDEF011);
}

#[test]
fn reading_signed_numbers_undoes_twos_complement() {
    assert_eq!(read_i16(&[0xFF, 0xFF], 0), -1);
    assert_eq!(read_i16(&[0x80, 0x00], 0), i16::MIN);
    assert_eq!(read_i16(&[0x7F, 0xFF], 0), i16::MAX);
    assert_eq!(read_i16(&[0xFE, 0x6F], 0), -401);
    assert_eq!(read_i32(&[0xFF, 0xFF, 0xFF, 0xFE], 0), -2);
    assert_eq!(read_i32(&[0x80, 0, 0, 0], 0), i32::MIN);
    assert_eq!(read_i32(&[0x6c, 0x6f, 0x67, 0x69], 0), 0x6c6f6769);
    assert_eq!(read_i64(&[0xFF; 8], 0), -1);
    assert_eq!(read_i64(&[0x80, 0, 0, 0, 0, 0, 0, 0], 0), i64::MIN);
    assert_eq!(
        read_i64(&[0xe8, 0x5f, 0x00, 0x22, 0x00, 0x57, 0x00, 0xaa], 0),
        i64::from_be_bytes([0xe8, 0x5f, 0x00, 0x22, 0x00, 0x57, 0x00, 0xaa])
    );
}

#[test]
fn what_is_written_is_read_back() {
    for v in [i64::MIN, -1, 0, 1, 0x0123456789ABCDEF, i64::MAX] {
        let mut out = vec![0u8; 3];
        push_i64(&mut out, v);
        assert_eq!(read_i64(&out, 3), v);
        assert_eq!(read_u64(&out, 3), v as u64);
    }
    for v in [i32::MIN, -1, 0, 1, 0x01234567, i32::MAX] {
        let mut out = vec![0u8; 3];
        push_i32(&mut out, v);
        assert_eq!(read_i32(&out, 3), v);
        assert_eq!(read_u32(&out, 3), v as u32);
    }
    for v in i16::MIN..=i16::MAX {
        let mut out = vec![0u8; 1];
        push_i16(&mut out, v);
        assert_eq!(read_i16(&out, 1), v);
        assert_eq!(read_u16(&out, 1), v as u16);
    }
}
