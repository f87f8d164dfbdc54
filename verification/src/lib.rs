//! A binary wire-protocol codec for the Bitcoin peer-to-peer message
//! format.
//!
//! The crate turns typed messages into the fixed envelope format —
//! magic, command token, payload length, payload checksum, payload —
//! and turns an incoming byte stream back into typed messages,
//! including framing: deciding where one message ends and the next
//! begins over a growable, possibly partial receive buffer.
//!
//! Every executable function carries a contract against spec-level
//! encoders and parsers; `laws` states and proves the round-trip,
//! minimality, framing and checksum properties the crate claims.

pub mod checksum;
pub mod codec;
pub mod decode;
pub mod encode;
pub mod error;
pub mod laws;
pub mod lemmas;
pub mod protocol;

pub use checksum::Checksum;
pub use codec::encode_message;
pub use codec::BitcoinCodec;
pub use decode::Parsed;
pub use encode::ByteSink;
pub use error::Error;
pub use protocol::Address;
pub use protocol::Command;
pub use protocol::IpAddr;
pub use protocol::Message;
pub use protocol::Payload;
pub use protocol::Port;
pub use protocol::VariableInt;
pub use protocol::VariableLengthString;
pub use protocol::VersionMessage;
