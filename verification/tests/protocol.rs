//! Envelope-level tests: the reference byte fixture encodes and decodes
//! bit-for-bit, and an encoded message decodes back to the same value.

use ramen::encode_message;
use ramen::Address;
use ramen::Command;
use ramen::IpAddr;
use ramen::Message;
use ramen::Payload;
use ramen::Port;
use ramen::VariableLengthString;
use ramen::VersionMessage;

const MESSAGE_BIN: &[u8] = b"\xf9\xbe\xb4\xd9version\0\0\0\0\0f\0\0\0@e\xe2A\x80\x11\x01\0\t\x04\0\0\0\0\0\0\x0e\xb1$d\0\0\0\0\0\0\0\0\0\0\0\0*\x02\x83\x08\x90\x0cY\0\xb5\x9b\xb5Q\x1c&\x02\xa8\xdb~\t\x04\0\0\0\0\0\0\0\0\0\0\0\0\0\0\0\0\0\0\0\0\0\0\0\0SH\x1f\xe5\xdc6S`\x10/Satoshi:23.0.0/\xe8\xf2\x0b\0\x01";

fn fixture_message() -> Message {
    Message::new(
        3652501241,
        Command::Version,
        Payload::Version(VersionMessage {
            version: 70016,
            services: 1033,
            timestamp: 1680126222,
            addr_recv: Address {
                services: 0,
                ip: IpAddr::from_v6([
                    0x2a, 0x02, 0x83, 0x08, 0x90, 0x0c, 0x59, 0x00, 0xb5, 0x9b, 0xb5, 0x51, 0x1c,
                    0x26, 0x02, 0xa8,
                ]),
                port: Port(56190),
            },
            addr_from: Address {
                services: 1033,
                ip: IpAddr::from_v6([0; 16]),
                port: Port(0),
            },
            nonce: 6940951773072803923,
            user_agent: VariableLengthString::from_text("/Satoshi:23.0.0/"),
            start_height: 783080,
            relay: true,
        }),
    )
    .unwrap()
}

#[test]
fn encode() {
    let message = fixture_message();
    assert_eq!(message.length(), 102);
    assert_eq!(message.checksum(), 1105356096);
    let buffer = encode_message(&message).unwrap();
    assert_eq!(buffer, MESSAGE_BIN.to_vec());
}

#[test]
fn decode() {
    let mut data = MESSAGE_BIN.to_vec();
    data.extend_from_slice(b"\xf9\xbe\xb4\xd9verack\0\0\0\0\0\0\0\0\0\0]\xf6\xe0\xe2");
    let (message, consumed) = Message::decode(&data, 0).unwrap();
    assert_eq!(consumed, MESSAGE_BIN.len());
    assert_eq!(message, fixture_message());
}

#[test]
fn encode_decode() {
    let msg = Message::new(
        3652501241,
        Command::Version,
        Payload::Version(VersionMessage {
            version: 70016,
            services: 1033,
            timestamp: 1680126222,
            addr_recv: Address {
                services: 0,
                ip: IpAddr::from_v6([
                    0x2a, 0x02, 0x83, 0x08, 0x90, 0x0c, 0x59, 0x00, 0xb5, 0x9b, 0xb5, 0x51, 0x1c,
                    0x26, 0x02, 0xa8,
                ]),
                port: Port(56190),
            },
            addr_from: Address {
                services: 1033,
                ip: IpAddr::from_v6([0, 0, 0, 0, 0, 0, 0, 0, 0, 0, 0, 0, 192, 168, 0, 1]),
                port: Port(0),
            },
            nonce: 6920951773072803923,
            user_agent: VariableLengthString::from_text(
                "/Satoshi:23.0.0:Nakamoto//Satoshi:23.0.0:Nakamoto//Satoshi:23.0.0:Nakamoto//Satoshi:23.0.0:Nakamoto//Satoshi:23.0.0:Nakamoto//Satoshi:23.0.0:Nakamoto//Satoshi:23.0.0:Nakamoto//Satoshi:23.0.0:Nakamoto//Satoshi:23.0.0:Nakamoto//Satoshi:23.0.0:Nakamoto//Satoshi:23.0.0:Nakamoto//Satoshi:23.0.0:Nakamoto//Satoshi:23.0.0:Nakamoto//Satoshi:23.0.0:Nakamoto//Satoshi:23.0.0:Nakamoto//Satoshi:23.0.0:Nakamoto//Satoshi:23.0.0:Nakamoto//Satoshi:23.0.0:Nakamoto//Satoshi:23.0.0:Nakamoto//Satoshi:23.0.0:Nakamoto//Satoshi:23.0.0:Nakamoto//Satoshi:23.0.0:Nakamoto//Satoshi:23.0.0:Nakamoto//Satoshi:23.0.0:Nakamoto//Satoshi:23.0.0:Nakamoto//Satoshi:23.0.0:Nakamoto//Satoshi:23.0.0:Nakamoto//Satoshi:23.0.0:Nakamoto//Satoshi:23.0.0:Nakamoto/",
            ),
            start_height: 1932515342,
            relay: true,
        }),
    )
    .unwrap();

    let buf = encode_message(&msg).unwrap();
    let (decoded, consumed) = Message::decode(&buf, 0).unwrap();
    assert_eq!(consumed, buf.len());
    assert_eq!(decoded, msg);
}
