//! Byte-level tests of the fixed-width scalar codecs, including the
//! two's-complement forms of the signed fields.

use ramen::decode::decode_i32;
use ramen::decode::decode_i64;
use ramen::decode::decode_u16;
use ramen::decode::decode_u32;
use ramen::decode::decode_u64;
use ramen::decode::decode_u8;
use ramen::encode::encode_i32;
use ramen::encode::encode_i64;
use ramen::encode::encode_u16;
use ramen::encode::encode_u64;
use ramen::encode::encode_u8;
use ramen::ByteSink;
use ramen::Error;

#[test]
fn unsigned_scalars_are_little_endian() {
    let mut sink = ByteSink::new(64);
    encode_u8(0xab, &mut sink).unwrap();
    encode_u16(0x1234, &mut sink).unwrap();
    encode_u64(0x0102030405060708, &mut sink).unwrap();
    let bytes = sink.into_bytes();
    assert_eq!(
        bytes,
        vec![0xab, 0x34, 0x12, 0x08, 0x07, 0x06, 0x05, 0x04, 0x03, 0x02, 0x01]
    );
    assert_eq!(decode_u8(&bytes, 0).unwrap(), (0xab, 1));
    assert_eq!(decode_u16(&bytes, 1).unwrap(), (0x1234, 3));
    assert_eq!(decode_u64(&bytes, 3).unwrap(), (0x0102030405060708, 11));
}

#[test]
fn signed_scalars_use_twos_complement() {
    let mut sink = ByteSink::new(64);
    encode_i32(-1, &mut sink).unwrap();
    encode_i32(i32::MIN, &mut sink).unwrap();
    encode_i64(-2, &mut sink).unwrap();
    let bytes = sink.into_bytes();
    assert_eq!(&bytes[0..4], &[0xff, 0xff, 0xff, 0xff]);
    assert_eq!(&bytes[4..8], &[0x00, 0x00, 0x00, 0x80]);
    assert_eq!(
        &bytes[8..16],
        &[0xfe, 0xff, 0xff, 0xff, 0xff, 0xff, 0xff, 0xff]
    );
    assert_eq!(decode_i32(&bytes, 0).unwrap(), (-1, 4));
    assert_eq!(decode_i32(&bytes, 4).unwrap(), (i32::MIN, 8));
    assert_eq!(decode_i64(&bytes, 8).unwrap(), (-2, 16));
}

#[test]
fn scalar_decode_reports_missing_bytes() {
    let bytes = vec![0x01, 0x02];
    match decode_u32(&bytes, 0) {
        Err(Error::NotEnoughBytes(_)) => {}
        other => panic!("expected not-enough-bytes, got {:?}", other),
    }
    match decode_u64(&bytes, 2) {
        Err(Error::NotEnoughBytes(_)) => {}
        other => panic!("expected not-enough-bytes, got {:?}", other),
    }
}
