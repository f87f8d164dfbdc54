//! Tests of the primitive and variable-length codecs, the checksum,
//! the command tokens, and the address quirk.

use ramen::checksum::checksum32;
use ramen::decode::decode_bool;
use ramen::decode::decode_u16_be;
use ramen::encode::encode_u32;
use ramen::Address;
use ramen::ByteSink;
use ramen::Checksum;
use ramen::Command;
use ramen::Error;
use ramen::IpAddr;
use ramen::Message;
use ramen::Port;
use ramen::VariableInt;
use ramen::VariableLengthString;

fn varint_bytes(v: u64) -> Vec<u8> {
    let mut sink = ByteSink::new(16);
    VariableInt(v).encode(&mut sink).unwrap();
    sink.into_bytes()
}

#[test]
fn varint_minimal_boundaries() {
    let cases: Vec<(u64, Vec<u8>)> = vec![
        (0, vec![0x00]),
        (10, vec![0x0a]),
        (0xFC, vec![0xfc]),
        (0xFD, vec![0xfd, 0xfd, 0x00]),
        (0xFFFF, vec![0xfd, 0xff, 0xff]),
        (0x1_0000, vec![0xfe, 0x00, 0x00, 0x01, 0x00]),
        (0xFFFF_FFFF, vec![0xfe, 0xff, 0xff, 0xff, 0xff]),
        (0x1_0000_0000, vec![0xff, 0x00, 0x00, 0x00, 0x00, 0x01, 0x00, 0x00, 0x00]),
        (u64::MAX, vec![0xff, 0xff, 0xff, 0xff, 0xff, 0xff, 0xff, 0xff, 0xff]),
    ];
    for (value, expected) in cases {
        let encoded = varint_bytes(value);
        assert_eq!(encoded, expected, "encoding of {}", value);
        let (decoded, consumed) = VariableInt::decode(&encoded, 0).unwrap();
        assert_eq!(decoded, VariableInt(value));
        assert_eq!(consumed, expected.len());
    }
}

#[test]
fn varint_wide_forms_accepted_on_decode() {
    let wide = vec![0xfd, 0x0a, 0x00];
    let (decoded, consumed) = VariableInt::decode(&wide, 0).unwrap();
    assert_eq!(decoded, VariableInt(10));
    assert_eq!(consumed, 3);
}

#[test]
fn varint_truncated_is_not_enough_bytes() {
    let truncated = vec![0xfd, 0x0a];
    match VariableInt::decode(&truncated, 0) {
        Err(Error::NotEnoughBytes(_)) => {},
        other => panic!("expected not-enough-bytes, got {:?}", other),
    }
}

#[test]
fn checksum_of_empty_payload() {
    // The first four little-endian bytes of SHA-256(SHA-256("")).
    assert_eq!(checksum32(&Vec::new()), 0xe2e0f65d);
    assert_eq!(Vec::new().sha256(), 0xe2e0f65d);
}

#[test]
fn checksum_is_deterministic_and_sensitive() {
    let payload = b"The Times 03/Jan/2009".to_vec();
    let same = b"The Times 03/Jan/2009".to_vec();
    assert_eq!(payload.sha256(), same.sha256());
    let mut tweaked = payload.clone();
    tweaked[0] ^= 1;
    assert_ne!(payload.sha256(), tweaked.sha256());
}

#[test]
fn message_header_fields_are_derived() {
    let msg = Message::new(0xD9B4BEF9, Command::VerAck, ramen::Payload::VerAck).unwrap();
    assert_eq!(msg.magic(), 0xD9B4BEF9);
    assert_eq!(msg.length(), 0);
    assert_eq!(msg.checksum(), 0xe2e0f65d);
}

#[test]
fn command_tokens_round_trip() {
    let cases: Vec<(Command, &[u8; 12])> = vec![
        (Command::Version, b"version\0\0\0\0\0"),
        (Command::VerAck, b"verack\0\0\0\0\0\0"),
        (Command::SendHeaders, b"sendheaders\0"),
    ];
    for (command, token) in cases {
        let mut sink = ByteSink::new(12);
        assert_eq!(command.encode(&mut sink), Ok(12));
        let encoded = sink.into_bytes();
        assert_eq!(encoded, token.to_vec());
        let (decoded, consumed) = Command::decode(&encoded, 0).unwrap();
        assert_eq!(decoded, command);
        assert_eq!(consumed, 12);
    }
}

#[test]
fn sendcmpct_has_no_encoder() {
    let mut sink = ByteSink::new(64);
    assert_eq!(Command::SendCmpct.encode(&mut sink), Err(Error::UnimplementedCommand));
    let (decoded, _) = Command::decode(&b"sendcmpct\0\0\0".to_vec(), 0).unwrap();
    assert_eq!(decoded, Command::SendCmpct);
}

#[test]
fn unknown_command_error_carries_token() {
    let bogus = b"nonsense\0\0\0\0".to_vec();
    match Command::decode(&bogus, 0) {
        Err(Error::Command(token)) => assert_eq!(token, bogus),
        other => panic!("expected a command error, got {:?}", other),
    }
}

#[test]
fn ipv4_uses_zero_prefix_form() {
    let ip = IpAddr::from_v4(192, 168, 0, 1);
    assert_eq!(ip.octets, [0, 0, 0, 0, 0, 0, 0, 0, 0, 0, 0, 0, 192, 168, 0, 1]);

    let addr = Address { services: 0, ip, port: Port(8333) };
    let mut sink = ByteSink::new(26);
    assert_eq!(addr.encode(&mut sink), Ok(26));
    let bytes = sink.into_bytes();
    let mut expected = vec![0u8; 8];
    expected.extend_from_slice(&[0, 0, 0, 0, 0, 0, 0, 0, 0, 0, 0, 0, 192, 168, 0, 1]);
    expected.extend_from_slice(&[0x20, 0x8d]);
    assert_eq!(bytes, expected);

    let (decoded, consumed) = Address::decode(&bytes, 0).unwrap();
    assert_eq!(consumed, 26);
    assert_eq!(decoded, addr);
}

#[test]
fn port_is_big_endian() {
    let mut sink = ByteSink::new(2);
    assert_eq!(Port(56190).encode(&mut sink), Ok(2));
    assert_eq!(sink.into_bytes(), vec![0xdb, 0x7e]);
    let (port, _) = Port::decode(&vec![0xdb, 0x7e], 0).unwrap();
    assert_eq!(port, Port::from(56190));
}

#[test]
fn bool_decodes_any_nonzero_byte_as_true() {
    assert_eq!(decode_bool(&vec![0], 0).unwrap(), (false, 1));
    assert_eq!(decode_bool(&vec![1], 0).unwrap(), (true, 1));
    assert_eq!(decode_bool(&vec![7], 0).unwrap(), (true, 1));
}

#[test]
fn port_decode_needs_two_bytes() {
    match decode_u16_be(&vec![0xdb], 0) {
        Err(Error::NotEnoughBytes(_)) => {},
        other => panic!("expected not-enough-bytes, got {:?}", other),
    }
}

#[test]
fn sink_reports_insufficient_capacity() {
    let mut sink = ByteSink::new(3);
    match encode_u32(7, &mut sink) {
        Err(Error::NotEnoughSpace(_)) => {},
        other => panic!("expected not-enough-space, got {:?}", other),
    }
    assert_eq!(sink.into_bytes(), Vec::<u8>::new());
}

#[test]
fn string_stores_utf8_bytes_with_length_prefix() {
    let s = VariableLengthString::from_text("/Satoshi:23.0.0/");
    assert_eq!(s.byte_len(), 16);
    let mut sink = ByteSink::new(32);
    assert_eq!(s.encode(&mut sink), Ok(17));
    let bytes = sink.into_bytes();
    assert_eq!(bytes[0], 0x10);
    assert_eq!(&bytes[1..], b"/Satoshi:23.0.0/");

    let (decoded, consumed) = VariableLengthString::decode(&bytes, 0).unwrap();
    assert_eq!(consumed, 17);
    assert_eq!(decoded, s);
}

#[test]
fn string_bytes_survive_invalid_utf8() {
    let raw = vec![0x03, 0xff, 0xfe, 0x41];
    let (decoded, consumed) = VariableLengthString::decode(&raw, 0).unwrap();
    assert_eq!(consumed, 4);
    assert_eq!(decoded.0, vec![0xff, 0xfe, 0x41]);
    let mut sink = ByteSink::new(8);
    assert_eq!(decoded.encode(&mut sink), Ok(4));
    assert_eq!(sink.into_bytes(), raw);
}

#[test]
fn integrity_holds_for_constructed_and_fails_for_corrupt_headers() {
    let msg = Message::new(0xD9B4BEF9, Command::VerAck, ramen::Payload::VerAck).unwrap();
    assert!(msg.check_integrity());

    // A wire message whose declared length does not match its payload.
    let mut raw: Vec<u8> = Vec::new();
    raw.extend_from_slice(&[0xf9, 0xbe, 0xb4, 0xd9]);
    raw.extend_from_slice(b"verack\0\0\0\0\0\0");
    raw.extend_from_slice(&[9, 0, 0, 0]);
    raw.extend_from_slice(&[0x5d, 0xf6, 0xe0, 0xe2]);
    let (decoded, _) = Message::decode(&raw, 0).unwrap();
    assert!(!decoded.check_integrity());
}
