use sqlite_cells::cell::DecodeError;
use sqlite_cells::varint::{decode_be, encode_be};

#[test]
fn round_trip_boundary_values() {
    let cases: [(u64, usize); 7] = [
        (0, 1),
        (127, 1),
        (128, 2),
        ((1u64 << 14) - 1, 2),
        (1u64 << 14, 3),
        ((1u64 << 56) - 1, 8),
        (u64::MAX, 9),
    ];
    for (v, want_len) in cases {
        let e = encode_be(v);
        assert_eq!(e.len(), want_len);
        let (got, used) = decode_be(&e).unwrap();
        assert_eq!(got, v);
        assert_eq!(used, want_len);
    }
}

#[test]
fn decode_single_bytes() {
    assert_eq!(decode_be(&[0x00]).unwrap(), (0, 1));
    assert_eq!(decode_be(&[0x7f]).unwrap(), (127, 1));
    assert_eq!(decode_be(&[0x81, 0x00]).unwrap(), (128, 2));
    assert_eq!(decode_be(&[0x87, 0x68]).unwrap(), (1000, 2));
}

#[test]
fn decode_stops_after_ninth_byte() {
    // Nine 0xff bytes decode to a full 64-bit value; a tenth is not read.
    let buf = [0xffu8; 10];
    assert_eq!(decode_be(&buf).unwrap(), (u64::MAX, 9));
}

#[test]
fn decode_ignores_bytes_after_the_varint() {
    let (v, used) = decode_be(&[0x03, 0x41, 0x42]).unwrap();
    assert_eq!(v, 3);
    assert_eq!(used, 1);
}

#[test]
fn decode_fails_on_empty_input() {
    assert_eq!(decode_be(&[]), Err(DecodeError::TruncatedVarint));
}

#[test]
fn decode_fails_on_unterminated_continuation() {
    assert_eq!(decode_be(&[0x80]), Err(DecodeError::TruncatedVarint));
    assert_eq!(decode_be(&[0xff, 0xff, 0xff]), Err(DecodeError::TruncatedVarint));
}

#[test]
fn encode_is_minimal_big_endian() {
    assert_eq!(encode_be(0), vec![0x00]);
    assert_eq!(encode_be(127), vec![0x7f]);
    assert_eq!(encode_be(128), vec![0x81, 0x00]);
    assert_eq!(encode_be(1000), vec![0x87, 0x68]);
    assert_eq!(encode_be(u64::MAX), vec![0xff; 9]);
}
