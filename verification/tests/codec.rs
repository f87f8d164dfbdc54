//! Framer tests: partial input, multi-message draining, and the
//! distinction between truncation and corruption.

use ramen::encode_message;
use ramen::Address;
use ramen::BitcoinCodec;
use ramen::Command;
use ramen::Error;
use ramen::IpAddr;
use ramen::Message;
use ramen::Payload;
use ramen::Port;
use ramen::VariableLengthString;
use ramen::VersionMessage;

fn version_message() -> Message {
    Message::new(
        0xD9B4BEF9,
        Command::Version,
        Payload::Version(VersionMessage {
            version: 70015,
            services: 0,
            timestamp: 0,
            addr_recv: Address {
                services: 0,
                ip: IpAddr::from_v6([0; 16]),
                port: Port(0),
            },
            addr_from: Address {
                services: 0,
                ip: IpAddr::from_v6([0; 16]),
                port: Port(0),
            },
            nonce: 0,
            user_agent: VariableLengthString::from_text("/ramen/"),
            start_height: 0,
            relay: false,
        }),
    )
    .unwrap()
}

fn verack_message() -> Message {
    Message::new(0xD9B4BEF9, Command::VerAck, Payload::VerAck).unwrap()
}

#[test]
fn framer_empty_buffer_is_not_an_error() {
    let codec = BitcoinCodec;
    let mut buf: Vec<u8> = Vec::new();
    assert_eq!(codec.decode(&mut buf), Ok(None));
    assert!(buf.is_empty());
}

#[test]
fn framer_byte_by_byte() {
    let codec = BitcoinCodec;
    let bytes = encode_message(&version_message()).unwrap();
    let mut buf: Vec<u8> = Vec::new();
    for (i, byte) in bytes.iter().enumerate() {
        buf.push(*byte);
        let out = codec.decode(&mut buf).unwrap();
        if i + 1 < bytes.len() {
            assert_eq!(out, None);
            assert_eq!(buf.len(), i + 1);
        } else {
            assert_eq!(out, Some(version_message()));
            assert!(buf.is_empty());
        }
    }
}

#[test]
fn framer_drains_two_messages() {
    let codec = BitcoinCodec;
    let m1 = version_message();
    let m2 = verack_message();
    let mut buf = encode_message(&m1).unwrap();
    buf.extend_from_slice(&encode_message(&m2).unwrap());

    assert_eq!(codec.decode(&mut buf).unwrap(), Some(m1));
    assert_eq!(codec.decode(&mut buf).unwrap(), Some(m2));
    assert_eq!(codec.decode(&mut buf).unwrap(), None);
    assert!(buf.is_empty());
}

#[test]
fn framer_keeps_remainder_buffered() {
    let codec = BitcoinCodec;
    let m1 = verack_message();
    let mut buf = encode_message(&m1).unwrap();
    buf.extend_from_slice(&[0xf9, 0xbe]);
    assert_eq!(codec.decode(&mut buf).unwrap(), Some(m1));
    assert_eq!(buf, vec![0xf9, 0xbe]);
    assert_eq!(codec.decode(&mut buf).unwrap(), None);
    assert_eq!(buf, vec![0xf9, 0xbe]);
}

#[test]
fn framer_surfaces_unknown_command() {
    let codec = BitcoinCodec;
    let mut buf: Vec<u8> = Vec::new();
    buf.extend_from_slice(&[0xf9, 0xbe, 0xb4, 0xd9]);
    buf.extend_from_slice(b"bogus\0\0\0\0\0\0\0");
    buf.extend_from_slice(&[0, 0, 0, 0]);
    buf.extend_from_slice(&[0, 0, 0, 0]);
    let before = buf.clone();
    match codec.decode(&mut buf) {
        Err(Error::Command(token)) => assert_eq!(token, b"bogus\0\0\0\0\0\0\0".to_vec()),
        other => panic!("expected a command error, got {:?}", other),
    }
    assert_eq!(buf, before);
}

#[test]
fn framer_encode_appends_wire_bytes() {
    let codec = BitcoinCodec;
    let m = verack_message();
    let mut sink = ramen::ByteSink::new(1024);
    let n = codec.encode(&m, &mut sink).unwrap();
    assert_eq!(n, 24);
    assert_eq!(sink.into_bytes(), encode_message(&m).unwrap());
}

#[test]
fn encode_message_rejects_unimplemented_command() {
    let m = Message::new(0xD9B4BEF9, Command::SendCmpct, Payload::SendHeaders).unwrap();
    assert_eq!(encode_message(&m), Err(Error::UnimplementedCommand));
}

#[test]
fn sendcmpct_token_decodes_with_empty_payload() {
    let mut buf: Vec<u8> = Vec::new();
    buf.extend_from_slice(&[0xf9, 0xbe, 0xb4, 0xd9]);
    buf.extend_from_slice(b"sendcmpct\0\0\0");
    buf.extend_from_slice(&[0, 0, 0, 0]);
    buf.extend_from_slice(&[0, 0, 0, 0]);
    let (message, consumed) = Message::decode(&buf, 0).unwrap();
    assert_eq!(consumed, 24);
    assert_eq!(message.command(), Command::SendCmpct);
    assert_eq!(*message.payload(), Payload::SendHeaders);
}
