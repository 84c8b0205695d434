//! The reply decoder and the hex numerals it leans on, on concrete buffers.

use fastboot::hex::{encode_hex8, hex_digit, parse_hex};
use fastboot::reply::{decode, Reply};

#[test]
fn decode_okay_carries_value() {
    match decode(b"OKAY1.0") {
        Reply::Okay(v) => assert_eq!(v, "1.0"),
        _ => panic!("expected Okay"),
    }
}

#[test]
fn decode_okay_empty_payload() {
    match decode(b"OKAY") {
        Reply::Okay(v) => assert_eq!(v, ""),
        _ => panic!("expected Okay"),
    }
}

#[test]
fn decode_info_carries_message() {
    match decode(b"INFOworking") {
        Reply::Info(m) => assert_eq!(m, "working"),
        _ => panic!("expected Info"),
    }
}

#[test]
fn decode_fail_carries_reason() {
    match decode(b"FAILunknown command") {
        Reply::Fail(m) => assert_eq!(m, "unknown command"),
        _ => panic!("expected Fail"),
    }
}

#[test]
fn decode_data_hex_size() {
    match decode(b"DATA00000200") {
        Reply::Data(n) => assert_eq!(n, 512),
        _ => panic!("expected Data"),
    }
}

#[test]
fn decode_data_nul_padded_size() {
    // An oversized read buffer leaves NUL padding behind the numeral; the
    // padding is stripped before parsing.
    match decode(b"DATA00000200\0\0\0\0") {
        Reply::Data(n) => assert_eq!(n, 512),
        _ => panic!("expected Data"),
    }
}

#[test]
fn decode_data_stripping_shortens_the_numeral() {
    // Stripping the padding leaves "000002": the numeral is what remains,
    // not the eight bytes the buffer held.
    match decode(b"DATA000002\0\0") {
        Reply::Data(n) => assert_eq!(n, 2),
        _ => panic!("expected Data"),
    }
}

#[test]
fn decode_replaces_invalid_utf8_in_text() {
    match decode(b"FAIL\xffoops") {
        Reply::Fail(m) => assert_eq!(m, "\u{fffd}oops"),
        _ => panic!("expected Fail"),
    }
}

#[test]
fn decode_data_uppercase_size() {
    match decode(b"DATA0000FFFF") {
        Reply::Data(n) => assert_eq!(n, 0xffff),
        _ => panic!("expected Data"),
    }
}

#[test]
fn decode_data_non_hex_fails() {
    match decode(b"DATAzzzzzzzz") {
        Reply::Fail(m) => assert_eq!(m, "DATA: failed to decode size"),
        _ => panic!("expected Fail"),
    }
}

#[test]
fn decode_data_empty_size_fails() {
    match decode(b"DATA") {
        Reply::Fail(m) => assert_eq!(m, "DATA: failed to decode size"),
        _ => panic!("expected Fail"),
    }
}

#[test]
fn decode_data_only_nuls_fails() {
    match decode(b"DATA\0\0\0\0") {
        Reply::Fail(m) => assert_eq!(m, "DATA: failed to decode size"),
        _ => panic!("expected Fail"),
    }
}

#[test]
fn decode_data_overflowing_size_fails() {
    match decode(b"DATAffffffffffffffffffff") {
        Reply::Fail(m) => assert_eq!(m, "DATA: failed to decode size"),
        _ => panic!("expected Fail"),
    }
}

#[test]
fn decode_unknown_tag_is_failure() {
    match decode(b"XYZWhello") {
        Reply::Fail(m) => assert_eq!(m, "hello"),
        _ => panic!("expected Fail"),
    }
}

#[test]
fn tag_round_trip_on_recognized_tags() {
    let buffers: [&[u8]; 4] = [b"OKAYx", b"INFOx", b"FAILx", b"DATA00000001"];
    for raw in buffers {
        let tag = decode(raw).tag_bytes();
        assert_eq!(&tag[..], &raw[..4]);
    }
}

#[test]
fn tag_bytes_name_each_variant() {
    assert_eq!(Reply::Okay(String::new()).tag_bytes(), b"OKAY".to_vec());
    assert_eq!(Reply::Info(String::new()).tag_bytes(), b"INFO".to_vec());
    assert_eq!(Reply::Fail(String::new()).tag_bytes(), b"FAIL".to_vec());
    assert_eq!(Reply::Data(0).tag_bytes(), b"DATA".to_vec());
}

#[test]
fn encode_hex8_pads_to_eight_digits() {
    assert_eq!(encode_hex8(512), b"00000200".to_vec());
    assert_eq!(encode_hex8(0), b"00000000".to_vec());
    assert_eq!(encode_hex8(0xdeadbeef), b"deadbeef".to_vec());
    assert_eq!(encode_hex8(u32::MAX), b"ffffffff".to_vec());
}

#[test]
fn parse_hex_reads_both_cases() {
    assert_eq!(parse_hex(b"00000200"), Some(512));
    assert_eq!(parse_hex(b"ff"), Some(255));
    assert_eq!(parse_hex(b"FF"), Some(255));
    assert_eq!(parse_hex(b"0"), Some(0));
}

#[test]
fn parse_hex_rejects_bad_numerals() {
    assert_eq!(parse_hex(b""), None);
    assert_eq!(parse_hex(b"12g4"), None);
    assert_eq!(parse_hex(b" 12"), None);
    assert_eq!(parse_hex(b"+12"), None);
}

#[test]
fn parse_hex_rejects_overflow() {
    assert_eq!(parse_hex(b"ffffffffffffffffffff"), None);
}

#[test]
fn hex_digit_values() {
    assert_eq!(hex_digit(b'0'), Some(0));
    assert_eq!(hex_digit(b'9'), Some(9));
    assert_eq!(hex_digit(b'a'), Some(10));
    assert_eq!(hex_digit(b'f'), Some(15));
    assert_eq!(hex_digit(b'A'), Some(10));
    assert_eq!(hex_digit(b'F'), Some(15));
    assert_eq!(hex_digit(b'g'), None);
}
