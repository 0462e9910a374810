use mcproxy::error::ProtocolError;
use mcproxy::varint::{decode_varint, encode_varint, write_varint};

#[test]
fn encodes_small_values_in_one_byte() {
    assert_eq!(encode_varint(0), vec![0x00]);
    assert_eq!(encode_varint(1), vec![0x01]);
    assert_eq!(encode_varint(127), vec![0x7f]);
}

#[test]
fn encodes_multi_byte_values() {
    assert_eq!(encode_varint(128), vec![0x80, 0x01]);
    assert_eq!(encode_varint(300), vec![0xac, 0x02]);
    assert_eq!(encode_varint(760), vec![0xf8, 0x05]);
    assert_eq!(encode_varint(25565), vec![0xdd, 0xc7, 0x01]);
    assert_eq!(encode_varint(i32::MAX), vec![0xff, 0xff, 0xff, 0xff, 0x07]);
}

#[test]
fn encodes_negative_values_as_five_bytes() {
    assert_eq!(encode_varint(-1), vec![0xff, 0xff, 0xff, 0xff, 0x0f]);
    assert_eq!(encode_varint(i32::MIN), vec![0x80, 0x80, 0x80, 0x80, 0x08]);
}

#[test]
fn round_trips_sample_values() {
    let values = [0, 1, -1, 127, 128, 255, 300, 25565, 2097151, 2097152, 268435455, 268435456, i32::MAX, i32::MIN, -760];
    for v in values {
        let bytes = encode_varint(v);
        assert_eq!(decode_varint(&bytes), Ok((v, bytes.len())));
    }
}

#[test]
fn decode_ignores_trailing_bytes() {
    assert_eq!(decode_varint(&[0x01, 0xff, 0xff]), Ok((1, 1)));
    assert_eq!(decode_varint(&[0xac, 0x02, 0x00]), Ok((300, 2)));
}

#[test]
fn five_continuation_bytes_are_too_long() {
    assert_eq!(decode_varint(&[0x80, 0x80, 0x80, 0x80, 0x80]), Err(ProtocolError::VarIntTooLong));
    assert_eq!(decode_varint(&[0xff, 0xff, 0xff, 0xff, 0xff, 0x01]), Err(ProtocolError::VarIntTooLong));
}

#[test]
fn stream_ending_inside_a_varint_is_eof() {
    assert_eq!(decode_varint(&[]), Err(ProtocolError::UnexpectedEof));
    assert_eq!(decode_varint(&[0x80, 0x80]), Err(ProtocolError::UnexpectedEof));
    assert_eq!(decode_varint(&[0xff, 0xff, 0xff, 0xff]), Err(ProtocolError::UnexpectedEof));
}

#[test]
fn fifth_group_wraps_to_thirty_two_bits() {
    assert_eq!(decode_varint(&[0xff, 0xff, 0xff, 0xff, 0x7f]), Ok((-1, 5)));
}

#[test]
fn write_varint_appends() {
    let mut out = vec![0xaa];
    write_varint(&mut out, 300);
    assert_eq!(out, vec![0xaa, 0xac, 0x02]);
}
