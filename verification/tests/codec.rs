use albatross_validator::codec::{
    bytes_equal, parse_be, parse_uvar, push_all, push_be, push_uvar, read_be,
};

fn beserial_uvar(value: u64) -> Vec<u8> {
    let v: beserial::uvar = value.into();
    let mut out = Vec::new();
    beserial::Serialize::serialize(&v, &mut out).expect("write to a vector");
    out
}

fn uvar(value: u16) -> Vec<u8> {
    let mut out = Vec::new();
    push_uvar(&mut out, value);
    out
}

#[test]
fn big_endian_u32() {
    let mut out = vec![0xAAu8];
    push_be(&mut out, 0x0102_0304, 4);
    assert_eq!(out, vec![0xAA, 1, 2, 3, 4]);
    assert_eq!(read_be(&out, 1, 4), 0x0102_0304);
}

#[test]
fn big_endian_u64_matches_std() {
    let value: u64 = 0x0000_0000_3B9A_CA00;
    let mut out = Vec::new();
    push_be(&mut out, value, 8);
    assert_eq!(out, value.to_be_bytes().to_vec());
    assert_eq!(read_be(&out, 0, 8), 1_000_000_000);
    let max = u64::MAX;
    let mut out = Vec::new();
    push_be(&mut out, max, 8);
    assert_eq!(read_be(&out, 0, 8), max);
}

#[test]
fn big_endian_keeps_the_low_bytes() {
    let mut out = Vec::new();
    push_be(&mut out, 0x0102_0304, 2);
    assert_eq!(out, vec![3, 4]);
    let mut none = Vec::new();
    push_be(&mut none, 77, 0);
    assert!(none.is_empty());
}

#[test]
fn parse_be_needs_all_bytes() {
    let bytes = vec![0u8, 1, 2];
    assert_eq!(parse_be(&bytes, 0, 4), None);
    assert_eq!(parse_be(&bytes, 1, 2), Some((0x0102, 3)));
    assert_eq!(parse_be(&bytes, 3, 0), Some((0, 3)));
    assert_eq!(parse_be(&bytes, 3, 1), None);
}

#[test]
fn uvar_forms() {
    assert_eq!(uvar(0), vec![0]);
    assert_eq!(uvar(0x7F), vec![0x7F]);
    assert_eq!(uvar(0x80), vec![0x80, 0x00]);
    assert_eq!(uvar(0x407F), vec![0xBF, 0xFF]);
    assert_eq!(uvar(0x4080), vec![0xC0, 0x00, 0x00]);
    assert_eq!(uvar(0xFFFF), vec![0xC0, 0xBF, 0x7F]);
}

#[test]
fn uvar_is_the_varint_of_beserial() {
    for value in [0u16, 1, 0x7F, 0x80, 0x81, 300, 511, 512, 0x407F, 0x4080, 0x4081, 0xFFFE, 0xFFFF]
    {
        assert_eq!(uvar(value), beserial_uvar(value as u64), "value {}", value);
    }
}

#[test]
fn uvar_round_trip() {
    for value in [0u16, 0x7F, 0x80, 511, 0x407F, 0x4080, 0xFFFF] {
        let mut bytes = vec![9u8];
        push_uvar(&mut bytes, value);
        let end = bytes.len();
        bytes.push(0xEE);
        assert_eq!(parse_uvar(&bytes, 1), Some((value, end)));
    }
}

#[test]
fn uvar_rejects_what_no_index_can_be() {
    assert_eq!(parse_uvar(&vec![], 0), None);
    assert_eq!(parse_uvar(&vec![0x80], 0), None);
    assert_eq!(parse_uvar(&vec![0xC0, 0x00], 0), None);
    // 0xC0 0xBF 0x80 spells 0x10000, one more than an index can be.
    assert_eq!(beserial_uvar(0x1_0000), vec![0xC0, 0xBF, 0x80]);
    assert_eq!(parse_uvar(&vec![0xC0, 0xBF, 0x80], 0), None);
    assert_eq!(parse_uvar(&vec![0xC1, 0x00, 0x00], 0), None);
    assert_eq!(parse_uvar(&vec![0xE0, 0, 0, 0], 0), None);
    assert_eq!(parse_uvar(&vec![0xFF, 0, 0, 0, 0, 0, 0, 0, 0], 0), None);
}

#[test]
fn byte_helpers() {
    let mut out = vec![1u8];
    push_all(&mut out, &[2, 3]);
    assert_eq!(out, vec![1, 2, 3]);
    assert!(bytes_equal(&[1, 2], &[1, 2]));
    assert!(!bytes_equal(&[1, 2], &[1, 3]));
    assert!(!bytes_equal(&[1, 2], &[1, 2, 3]));
    assert!(bytes_equal(&[], &[]));
}
