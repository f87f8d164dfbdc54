//! The message envelope and the typed payloads of the protocol.
//!
//! A message on the wire is
//! magic (u32 LE) ‖ command (12-byte NUL-padded ASCII token) ‖
//! length (u32 LE, payload byte count) ‖ checksum (u32 LE) ‖ payload.
//! The payload's shape is not self-describing: it is decoded under the
//! command that was read from the envelope header.

use vstd::bytes::*;
use vstd::string::StringSliceAdditionalSpecFns;
use vstd::string::StrSliceExecFns;
use vstd::prelude::*;

use crate::checksum::checksum32;
use crate::checksum::spec_checksum;
use crate::decode::bytes_eq;
use crate::decode::decode_bool;
use crate::decode::decode_i32;
use crate::decode::decode_i64;
use crate::decode::decode_raw;
use crate::decode::decode_u16;
use crate::decode::decode_u16_be;
use crate::decode::decode_u32;
use crate::decode::decode_u64;
use crate::decode::parse_bool;
use crate::decode::parse_i32;
use crate::decode::parse_i64;
use crate::decode::parse_raw;
use crate::decode::parse_u16;
use crate::decode::parse_u16_be;
use crate::decode::parse_u32;
use crate::decode::parse_u64;
use crate::decode::Parsed;
use crate::encode::encode_bool;
use crate::encode::encode_bytes;
use crate::encode::encode_i32;
use crate::encode::encode_i64;
use crate::encode::encode_u16_be;
use crate::encode::encode_u32;
use crate::encode::encode_u64;
use crate::encode::spec_bool_to_byte;
use crate::encode::spec_i32_to_le_bytes;
use crate::encode::spec_i64_to_le_bytes;
use crate::encode::spec_u16_to_be_bytes;
use crate::encode::ByteSink;
use crate::error::Error;

verus! {

broadcast use vstd::array::group_array_axioms;

/// The closed set of protocol operations. `SendCmpct` is accepted on
/// decode but has no encoder: encoding it is an explicit capability gap,
/// reported as `Error::UnimplementedCommand`.
#[derive(Debug, Clone, Copy, PartialEq, Eq)]
pub enum Command {
    Version,
    VerAck,
    SendHeaders,
    SendCmpct,
}

/// An IP address, always carried in its 16-byte form. A version 4
/// address is stored with a twelve-zero-byte prefix before its four
/// octets — deliberately not the standard v4-mapped prefix; the wire
/// format of this protocol demands exactly this form.
#[derive(Debug, Clone, Copy, PartialEq, Eq)]
pub struct IpAddr {
    pub octets: [u8; 16],
}

/// A transport port. Alone among the scalars of this protocol it is
/// encoded big-endian.
#[derive(Debug, Clone, Copy, PartialEq, Eq)]
pub struct Port(pub u16);

/// A network address record as it appears inside a version payload:
/// service bits, IP address and port, with no leading timestamp field.
/// (The wider protocol also has a timestamped form; this envelope only
/// carries the form without one.)
#[derive(Debug, Clone, Copy, PartialEq, Eq)]
pub struct Address {
    pub services: u64,
    pub ip: IpAddr,
    pub port: Port,
}

/// An unsigned value in the self-describing variable-width encoding:
/// one byte for values up to 0xFC, otherwise a marker byte 0xFD/0xFE/0xFF
/// followed by the value in 2, 4 or 8 little-endian bytes. Encoders
/// always choose the minimal form.
#[derive(Debug, Clone, Copy, PartialEq, Eq)]
pub struct VariableInt(pub u64);

/// A length-prefixed byte string: a `VariableInt` length followed by that
/// many raw bytes. The bytes are kept verbatim, so a decoded value
/// re-encodes to exactly the bytes it came from; reading them as text
/// is left to the caller.
#[derive(Debug, Clone, PartialEq, Eq)]
pub struct VariableLengthString(pub Vec<u8>);

/// The version payload: the handshake message that introduces a peer.
/// All fields are mandatory and fixed-order.
#[derive(Debug, Clone, PartialEq, Eq)]
pub struct VersionMessage {
    pub version: i32,
    pub services: u64,
    pub timestamp: i64,
    pub addr_recv: Address,
    pub addr_from: Address,
    pub nonce: u64,
    pub user_agent: VariableLengthString,
    pub start_height: i32,
    pub relay: bool,
}

/// The payload variants, keyed one-to-one by command.
#[derive(Debug, Clone, PartialEq, Eq)]
pub enum Payload {
    Version(VersionMessage),
    VerAck,
    SendHeaders,
}

/// A full message: the envelope header fields and the payload.
/// `length` and `checksum` are derived from the serialized payload at
/// construction time and are not independently settable.
#[derive(Debug, Clone, PartialEq, Eq)]
pub struct Message {
    magic: u32,
    command: Command,
    length: u32,
    checksum: u32,
    payload: Payload,
}

/// The mathematical value of an address: service bits, the 16 IP bytes,
/// and the port.
pub struct AddrModel {
    pub services: u64,
    pub ip: Seq<u8>,
    pub port: u16,
}

/// The mathematical value of a version payload.
pub struct VersionModel {
    pub version: i32,
    pub services: u64,
    pub timestamp: i64,
    pub addr_recv: AddrModel,
    pub addr_from: AddrModel,
    pub nonce: u64,
    pub user_agent: Seq<u8>,
    pub start_height: i32,
    pub relay: bool,
}

/// The mathematical value of a payload.
pub enum PayloadModel {
    Version(VersionModel),
    VerAck,
    SendHeaders,
}

/// The mathematical value of a message.
pub struct MessageModel {
    pub magic: u32,
    pub command: Command,
    pub length: u32,
    pub checksum: u32,
    pub payload: PayloadModel,
}

impl View for IpAddr {
    type V = Seq<u8>;

    open spec fn view(&self) -> Seq<u8> {
        self.octets@
    }
}

impl View for Port {
    type V = u16;

    open spec fn view(&self) -> u16 {
        self.0
    }
}

impl View for Address {
    type V = AddrModel;

    open spec fn view(&self) -> AddrModel {
        AddrModel { services: self.services, ip: self.ip@, port: self.port@ }
    }
}

impl View for VariableInt {
    type V = u64;

    open spec fn view(&self) -> u64 {
        self.0
    }
}

impl View for VariableLengthString {
    type V = Seq<u8>;

    open spec fn view(&self) -> Seq<u8> {
        self.0@
    }
}

impl View for VersionMessage {
    type V = VersionModel;

    open spec fn view(&self) -> VersionModel {
        VersionModel {
            version: self.version,
            services: self.services,
            timestamp: self.timestamp,
            addr_recv: self.addr_recv@,
            addr_from: self.addr_from@,
            nonce: self.nonce,
            user_agent: self.user_agent@,
            start_height: self.start_height,
            relay: self.relay,
        }
    }
}

impl View for Payload {
    type V = PayloadModel;

    open spec fn view(&self) -> PayloadModel {
        match self {
            Payload::Version(v) => PayloadModel::Version(v@),
            Payload::VerAck => PayloadModel::VerAck,
            Payload::SendHeaders => PayloadModel::SendHeaders,
        }
    }
}

impl View for Message {
    type V = MessageModel;

    closed spec fn view(&self) -> MessageModel {
        MessageModel {
            magic: self.magic,
            command: self.command,
            length: self.length,
            checksum: self.checksum,
            payload: self.payload@,
        }
    }
}

// ---------------------------------------------------------------------
// The wire form of each item, as a spec-level function of its value.
// ---------------------------------------------------------------------
/// The fixed 12-byte ASCII token of a command, NUL-padded.
pub open spec fn spec_command_token(c: Command) -> Seq<u8> {
    match c {
        Command::Version => seq![
            0x76u8,
            0x65u8,
            0x72u8,
            0x73u8,
            0x69u8,
            0x6fu8,
            0x6eu8,
            0u8,
            0u8,
            0u8,
            0u8,
            0u8,
        ],
        Command::VerAck => seq![
            0x76u8,
            0x65u8,
            0x72u8,
            0x61u8,
            0x63u8,
            0x6bu8,
            0u8,
            0u8,
            0u8,
            0u8,
            0u8,
            0u8,
        ],
        Command::SendHeaders => seq![
            0x73u8,
            0x65u8,
            0x6eu8,
            0x64u8,
            0x68u8,
            0x65u8,
            0x61u8,
            0x64u8,
            0x65u8,
            0x72u8,
            0x73u8,
            0u8,
        ],
        Command::SendCmpct => seq![
            0x73u8,
            0x65u8,
            0x6eu8,
            0x64u8,
            0x63u8,
            0x6du8,
            0x70u8,
            0x63u8,
            0x74u8,
            0u8,
            0u8,
            0u8,
        ],
    }
}

/// Whether a command has an encoder. Every command's token is known for
/// decoding; only `SendCmpct` cannot be encoded.
pub open spec fn spec_command_encodable(c: Command) -> bool {
    !(c is SendCmpct)
}

/// The minimal-width variable-length encoding of a value.
pub open spec fn spec_varint(v: u64) -> Seq<u8> {
    if v <= 0xFC {
        seq![v as u8]
    } else if v <= 0xFFFF {
        seq![0xFDu8] + spec_u16_to_le_bytes(v as u16)
    } else if v <= 0xFFFF_FFFF {
        seq![0xFEu8] + spec_u32_to_le_bytes(v as u32)
    } else {
        seq![0xFFu8] + spec_u64_to_le_bytes(v)
    }
}

/// The width the minimal variable-length encoding takes.
pub open spec fn spec_varint_len(v: u64) -> int {
    if v <= 0xFC {
        1
    } else if v <= 0xFFFF {
        3
    } else if v <= 0xFFFF_FFFF {
        5
    } else {
        9
    }
}

/// The wire form of a length-prefixed byte string.
pub open spec fn spec_vls(s: Seq<u8>) -> Seq<u8>
    recommends
        s.len() <= u64::MAX,
{
    spec_varint(s.len() as u64) + s
}

/// The wire form of an address record: services ‖ 16 IP bytes ‖ port.
pub open spec fn spec_addr(a: AddrModel) -> Seq<u8> {
    spec_u64_to_le_bytes(a.services) + a.ip + spec_u16_to_be_bytes(a.port)
}

/// The wire form of a version payload, fields in their fixed order.
pub open spec fn spec_version_msg(m: VersionModel) -> Seq<u8> {
    spec_i32_to_le_bytes(m.version) + spec_u64_to_le_bytes(m.services) + spec_i64_to_le_bytes(
        m.timestamp,
    ) + spec_addr(m.addr_recv) + spec_addr(m.addr_from) + spec_u64_to_le_bytes(m.nonce) + spec_vls(
        m.user_agent,
    ) + spec_i32_to_le_bytes(m.start_height) + spec_bool_to_byte(m.relay)
}

/// The wire form of a payload. Only the version payload carries bytes.
pub open spec fn spec_payload(p: PayloadModel) -> Seq<u8> {
    match p {
        PayloadModel::Version(v) => spec_version_msg(v),
        PayloadModel::VerAck => Seq::<u8>::empty(),
        PayloadModel::SendHeaders => Seq::<u8>::empty(),
    }
}

/// The wire form of a whole message: the envelope header, then the
/// payload. The `length` and `checksum` fields are written as stored.
pub open spec fn spec_message(m: MessageModel) -> Seq<u8> {
    spec_u32_to_le_bytes(m.magic) + spec_command_token(m.command) + spec_u32_to_le_bytes(m.length)
        + spec_u32_to_le_bytes(m.checksum) + spec_payload(m.payload)
}

// ---------------------------------------------------------------------
// Well-formedness of model values.
// ---------------------------------------------------------------------
impl AddrModel {
    /// The IP field always holds exactly 16 bytes.
    pub open spec fn wf(&self) -> bool {
        self.ip.len() == 16
    }
}

impl VersionModel {
    /// Both addresses are well formed and the user agent's length fits
    /// the variable-length prefix.
    pub open spec fn wf(&self) -> bool {
        self.addr_recv.wf() && self.addr_from.wf() && self.user_agent.len() <= u64::MAX
    }
}

impl PayloadModel {
    pub open spec fn wf(&self) -> bool {
        match self {
            PayloadModel::Version(v) => v.wf(),
            PayloadModel::VerAck => true,
            PayloadModel::SendHeaders => true,
        }
    }
}

impl MessageModel {
    /// The command agrees with the payload variant it keys.
    pub open spec fn payload_agrees(&self) -> bool {
        match (self.command, self.payload) {
            (Command::Version, PayloadModel::Version(_)) => true,
            (Command::VerAck, PayloadModel::VerAck) => true,
            (Command::SendHeaders, PayloadModel::SendHeaders) => true,
            _ => false,
        }
    }

    pub open spec fn wf(&self) -> bool {
        self.payload.wf() && self.payload_agrees()
    }

    /// The header fields that are derived from the payload really are:
    /// `length` counts the serialized payload bytes and `checksum` is
    /// their digest. `Message::new` establishes this.
    pub open spec fn header_derived(&self) -> bool {
        self.length == spec_payload(self.payload).len() && self.checksum == spec_checksum(
            spec_payload(self.payload),
        )
    }
}

// ---------------------------------------------------------------------
// Spec-level parsers for the composite items.
// ---------------------------------------------------------------------
/// Parses a command token: 12 bytes, matched against the closed token
/// set. An unknown token is `Invalid` — a hard error, not a request for
/// more input.
pub open spec fn parse_command(data: Seq<u8>, pos: int) -> Parsed<Command> {
    if pos + 12 <= data.len() {
        let t = data.subrange(pos, pos + 12);
        if t == spec_command_token(Command::Version) {
            Parsed::Found(Command::Version, pos + 12)
        } else if t == spec_command_token(Command::VerAck) {
            Parsed::Found(Command::VerAck, pos + 12)
        } else if t == spec_command_token(Command::SendHeaders) {
            Parsed::Found(Command::SendHeaders, pos + 12)
        } else if t == spec_command_token(Command::SendCmpct) {
            Parsed::Found(Command::SendCmpct, pos + 12)
        } else {
            Parsed::Invalid
        }
    } else {
        Parsed::Incomplete
    }
}

/// Parses a variable-length integer: a marker byte, then 0, 2, 4 or 8
/// value bytes. Any non-marker first byte is the value itself.
pub open spec fn parse_varint(data: Seq<u8>, pos: int) -> Parsed<u64> {
    if pos + 1 <= data.len() {
        let m = data[pos];
        if m == 0xFD {
            match parse_u16(data, pos + 1) {
                Parsed::Found(v, p) => Parsed::Found(v as u64, p),
                Parsed::Incomplete => Parsed::Incomplete,
                Parsed::Invalid => Parsed::Invalid,
            }
        } else if m == 0xFE {
            match parse_u32(data, pos + 1) {
                Parsed::Found(v, p) => Parsed::Found(v as u64, p),
                Parsed::Incomplete => Parsed::Incomplete,
                Parsed::Invalid => Parsed::Invalid,
            }
        } else if m == 0xFF {
            match parse_u64(data, pos + 1) {
                Parsed::Found(v, p) => Parsed::Found(v, p),
                Parsed::Incomplete => Parsed::Incomplete,
                Parsed::Invalid => Parsed::Invalid,
            }
        } else {
            Parsed::Found(m as u64, pos + 1)
        }
    } else {
        Parsed::Incomplete
    }
}

/// Parses a length-prefixed byte string.
pub open spec fn parse_vls(data: Seq<u8>, pos: int) -> Parsed<Seq<u8>> {
    match parse_varint(data, pos) {
        Parsed::Found(n, p) => if p + n <= data.len() {
            Parsed::Found(data.subrange(p, p + n), p + n)
        } else {
            Parsed::Incomplete
        },
        Parsed::Incomplete => Parsed::Incomplete,
        Parsed::Invalid => Parsed::Invalid,
    }
}

/// Parses an address record.
pub open spec fn parse_addr(data: Seq<u8>, pos: int) -> Parsed<AddrModel> {
    match parse_u64(data, pos) {
        Parsed::Found(services, p1) => match parse_raw(data, p1, 16) {
            Parsed::Found(ip, p2) => match parse_u16_be(data, p2) {
                Parsed::Found(port, p3) => Parsed::Found(AddrModel { services, ip, port }, p3),
                Parsed::Incomplete => Parsed::Incomplete,
                Parsed::Invalid => Parsed::Invalid,
            },
            Parsed::Incomplete => Parsed::Incomplete,
            Parsed::Invalid => Parsed::Invalid,
        },
        Parsed::Incomplete => Parsed::Incomplete,
        Parsed::Invalid => Parsed::Invalid,
    }
}

/// Parses a version payload, fields in their fixed order.
pub open spec fn parse_version_msg(data: Seq<u8>, pos: int) -> Parsed<VersionModel> {
    match parse_i32(data, pos) {
        Parsed::Found(version, p1) => match parse_u64(data, p1) {
            Parsed::Found(services, p2) => match parse_i64(data, p2) {
                Parsed::Found(timestamp, p3) => match parse_addr(data, p3) {
                    Parsed::Found(addr_recv, p4) => match parse_addr(data, p4) {
                        Parsed::Found(addr_from, p5) => match parse_u64(data, p5) {
                            Parsed::Found(nonce, p6) => match parse_vls(data, p6) {
                                Parsed::Found(user_agent, p7) => match parse_i32(data, p7) {
                                    Parsed::Found(start_height, p8) => match parse_bool(data, p8) {
                                        Parsed::Found(relay, p9) => Parsed::Found(
                                            VersionModel {
                                                version,
                                                services,
                                                timestamp,
                                                addr_recv,
                                                addr_from,
                                                nonce,
                                                user_agent,
                                                start_height,
                                                relay,
                                            },
                                            p9,
                                        ),
                                        Parsed::Incomplete => Parsed::Incomplete,
                                        Parsed::Invalid => Parsed::Invalid,
                                    },
                                    Parsed::Incomplete => Parsed::Incomplete,
                                    Parsed::Invalid => Parsed::Invalid,
                                },
                                Parsed::Incomplete => Parsed::Incomplete,
                                Parsed::Invalid => Parsed::Invalid,
                            },
                            Parsed::Incomplete => Parsed::Incomplete,
                            Parsed::Invalid => Parsed::Invalid,
                        },
                        Parsed::Incomplete => Parsed::Incomplete,
                        Parsed::Invalid => Parsed::Invalid,
                    },
                    Parsed::Incomplete => Parsed::Incomplete,
                    Parsed::Invalid => Parsed::Invalid,
                },
                Parsed::Incomplete => Parsed::Incomplete,
                Parsed::Invalid => Parsed::Invalid,
            },
            Parsed::Incomplete => Parsed::Incomplete,
            Parsed::Invalid => Parsed::Invalid,
        },
        Parsed::Incomplete => Parsed::Incomplete,
        Parsed::Invalid => Parsed::Invalid,
    }
}

/// Parses the payload that a command keys. The payload's shape can only
/// be read under an already-decoded command. A `SendCmpct` command is
/// accepted and carries no payload bytes.
pub open spec fn parse_payload(c: Command, data: Seq<u8>, pos: int) -> Parsed<PayloadModel> {
    match c {
        Command::Version => match parse_version_msg(data, pos) {
            Parsed::Found(v, p) => Parsed::Found(PayloadModel::Version(v), p),
            Parsed::Incomplete => Parsed::Incomplete,
            Parsed::Invalid => Parsed::Invalid,
        },
        Command::VerAck => Parsed::Found(PayloadModel::VerAck, pos),
        Command::SendHeaders => Parsed::Found(PayloadModel::SendHeaders, pos),
        Command::SendCmpct => Parsed::Found(PayloadModel::SendHeaders, pos),
    }
}

/// Parses a whole message: the envelope header, then the payload under
/// the decoded command. `Invalid` arises only from an unknown command
/// token, at bytes `[pos+4, pos+16)`.
pub open spec fn parse_message(data: Seq<u8>, pos: int) -> Parsed<MessageModel> {
    match parse_u32(data, pos) {
        Parsed::Found(magic, p1) => match parse_command(data, p1) {
            Parsed::Found(command, p2) => match parse_u32(data, p2) {
                Parsed::Found(length, p3) => match parse_u32(data, p3) {
                    Parsed::Found(checksum, p4) => match parse_payload(command, data, p4) {
                        Parsed::Found(payload, p5) => Parsed::Found(
                            MessageModel { magic, command, length, checksum, payload },
                            p5,
                        ),
                        Parsed::Incomplete => Parsed::Incomplete,
                        Parsed::Invalid => Parsed::Invalid,
                    },
                    Parsed::Incomplete => Parsed::Incomplete,
                    Parsed::Invalid => Parsed::Invalid,
                },
                Parsed::Incomplete => Parsed::Incomplete,
                Parsed::Invalid => Parsed::Invalid,
            },
            Parsed::Incomplete => Parsed::Incomplete,
            Parsed::Invalid => Parsed::Invalid,
        },
        Parsed::Incomplete => Parsed::Incomplete,
        Parsed::Invalid => Parsed::Invalid,
    }
}

// ---------------------------------------------------------------------
// Executable encoders and decoders.
// ---------------------------------------------------------------------
/// The 12 token bytes of a command, for matching and for encoding.
fn command_token_vec(c: Command) -> (r: Vec<u8>)
    ensures
        r@ == spec_command_token(c),
{
    let mut t: Vec<u8> = Vec::new();
    match c {
        Command::Version => {
            t.push(0x76);
            t.push(0x65);
            t.push(0x72);
            t.push(0x73);
            t.push(0x69);
            t.push(0x6f);
            t.push(0x6e);
            t.push(0);
            t.push(0);
            t.push(0);
            t.push(0);
            t.push(0);
        },
        Command::VerAck => {
            t.push(0x76);
            t.push(0x65);
            t.push(0x72);
            t.push(0x61);
            t.push(0x63);
            t.push(0x6b);
            t.push(0);
            t.push(0);
            t.push(0);
            t.push(0);
            t.push(0);
            t.push(0);
        },
        Command::SendHeaders => {
            t.push(0x73);
            t.push(0x65);
            t.push(0x6e);
            t.push(0x64);
            t.push(0x68);
            t.push(0x65);
            t.push(0x61);
            t.push(0x64);
            t.push(0x65);
            t.push(0x72);
            t.push(0x73);
            t.push(0);
        },
        Command::SendCmpct => {
            t.push(0x73);
            t.push(0x65);
            t.push(0x6e);
            t.push(0x64);
            t.push(0x63);
            t.push(0x6d);
            t.push(0x70);
            t.push(0x63);
            t.push(0x74);
            t.push(0);
            t.push(0);
            t.push(0);
        },
    }
    proof {
        assert(t@ =~= spec_command_token(c));
    }
    t
}

impl IpAddr {
    /// A version 4 address in the protocol's 16-byte form: twelve zero
    /// bytes, then the four octets.
    pub fn from_v4(a: u8, b: u8, c: u8, d: u8) -> (r: IpAddr)
        ensures
            r@ == spec_v4_mapped(a, b, c, d),
    {
        let octets: [u8; 16] = [0, 0, 0, 0, 0, 0, 0, 0, 0, 0, 0, 0, a, b, c, d];
        proof {
            assert(octets@ =~= spec_v4_mapped(a, b, c, d));
        }
        IpAddr { octets }
    }

    /// A version 6 address from its 16 bytes.
    pub fn from_v6(octets: [u8; 16]) -> (r: IpAddr)
        ensures
            r@ == octets@,
    {
        IpAddr { octets }
    }

    /// Appends the 16 address bytes.
    pub fn encode(&self, sink: &mut ByteSink) -> (r: Result<usize, Error>)
        requires
            old(sink).wf(),
        ensures
            final(sink).wf(),
            final(sink).limit == old(sink).limit,
            old(sink).remaining() >= 16 ==> r == Ok::<usize, Error>(16usize) && final(sink)@ == old(
                sink,
            )@ + self@,
            old(sink).remaining() < 16 ==> (r matches Err(e) && e is NotEnoughSpace) && final(sink)@ == old(sink)@,
    {
        match encode_bytes(self.octets.as_slice(), "IpAddr", sink) {
            Ok(_) => Ok(16),
            Err(e) => Err(e),
        }
    }

    /// Reads 16 address bytes.
    pub fn decode(data: &Vec<u8>, pos: usize) -> (r: Result<(IpAddr, usize), Error>)
        requires
            pos <= data@.len(),
        ensures
            match parse_raw(data@, pos as int, 16) {
                Parsed::Found(v, p) => (r matches Ok(t) && t.0@ == v && t.1 == p),
                Parsed::Incomplete => (r matches Err(e) && e is NotEnoughBytes),
                Parsed::Invalid => false,
            },
    {
        if data.len() - pos < 16 {
            return Err(Error::NotEnoughBytes("IpAddr"));
        }
        let octets: [u8; 16] = [
            data[pos],
            data[pos + 1],
            data[pos + 2],
            data[pos + 3],
            data[pos + 4],
            data[pos + 5],
            data[pos + 6],
            data[pos + 7],
            data[pos + 8],
            data[pos + 9],
            data[pos + 10],
            data[pos + 11],
            data[pos + 12],
            data[pos + 13],
            data[pos + 14],
            data[pos + 15],
        ];
        proof {
            assert(octets@ =~= data@.subrange(pos as int, pos as int + 16));
        }
        Ok((IpAddr { octets }, pos + 16))
    }
}

/// The protocol's 16-byte image of a version 4 address.
pub open spec fn spec_v4_mapped(a: u8, b: u8, c: u8, d: u8) -> Seq<u8> {
    seq![0u8, 0u8, 0u8, 0u8, 0u8, 0u8, 0u8, 0u8, 0u8, 0u8, 0u8, 0u8, a, b, c, d]
}

impl Port {
    /// Appends the port, big-endian.
    pub fn encode(&self, sink: &mut ByteSink) -> (r: Result<usize, Error>)
        requires
            old(sink).wf(),
        ensures
            final(sink).wf(),
            final(sink).limit == old(sink).limit,
            old(sink).remaining() >= 2 ==> r == Ok::<usize, Error>(2usize) && final(sink)@ == old(
                sink,
            )@ + spec_u16_to_be_bytes(self@),
            old(sink).remaining() < 2 ==> (r matches Err(e) && e is NotEnoughSpace) && final(sink)@ == old(sink)@,
    {
        encode_u16_be(self.0, sink)
    }

    /// Reads a big-endian port.
    pub fn decode(data: &Vec<u8>, pos: usize) -> (r: Result<(Port, usize), Error>)
        requires
            pos <= data@.len(),
        ensures
            match parse_u16_be(data@, pos as int) {
                Parsed::Found(v, p) => (r matches Ok(t) && t.0@ == v && t.1 == p),
                Parsed::Incomplete => (r matches Err(e) && e is NotEnoughBytes),
                Parsed::Invalid => false,
            },
    {
        match decode_u16_be(data, pos) {
            Ok((v, p)) => Ok((Port(v), p)),
            Err(e) => Err(e),
        }
    }
}

impl From<u16> for Port {
    fn from(port: u16) -> (r: Port) {
        Port(port)
    }
}

impl vstd::std_specs::convert::FromSpecImpl<u16> for Port {
    open spec fn obeys_from_spec() -> bool {
        true
    }

    open spec fn from_spec(port: u16) -> Port {
        Port(port)
    }
}

impl Command {
    /// Appends the command's 12-byte token; refuses the variant that has
    /// no encoder.
    pub fn encode(&self, sink: &mut ByteSink) -> (r: Result<usize, Error>)
        requires
            old(sink).wf(),
        ensures
            final(sink).wf(),
            final(sink).limit == old(sink).limit,
            old(sink).remaining() >= 12 && spec_command_encodable(*self) ==> r == Ok::<usize, Error>(
                12usize,
            ) && final(sink)@ == old(sink)@ + spec_command_token(*self),
            old(sink).remaining() < 12 ==> (r matches Err(e) && e is NotEnoughSpace) && final(sink)@ == old(sink)@,
            old(sink).remaining() >= 12 && !spec_command_encodable(*self) ==> (r matches Err(e)
                && e is UnimplementedCommand) && final(sink)@ == old(sink)@,
    {
        let rem: usize = sink.limit - sink.bytes.len();
        if rem < 12 {
            return Err(Error::NotEnoughSpace("Command"));
        }
        match self {
            Command::SendCmpct => Err(Error::UnimplementedCommand),
            _ => {
                let t = command_token_vec(*self);
                match encode_bytes(t.as_slice(), "Command", sink) {
                    Ok(_) => Ok(12),
                    Err(e) => Err(e),
                }
            },
        }
    }

    /// Reads a 12-byte token and matches it against the known set. An
    /// unknown token is a hard error carrying the offending bytes.
    pub fn decode(data: &Vec<u8>, pos: usize) -> (r: Result<(Command, usize), Error>)
        requires
            pos <= data@.len(),
        ensures
            match parse_command(data@, pos as int) {
                Parsed::Found(c, p) => (r matches Ok(t) && t.0 == c && t.1 == p),
                Parsed::Incomplete => (r matches Err(e) && e is NotEnoughBytes),
                Parsed::Invalid => (r matches Err(e) && e matches Error::Command(b) && b@
                    == data@.subrange(pos as int, pos as int + 12)),
            },
    {
        let (tok, p) = match decode_raw(data, pos, 12, "Command") {
            Ok(t) => t,
            Err(e) => {
                return Err(e);
            },
        };
        if bytes_eq(tok.as_slice(), command_token_vec(Command::Version).as_slice()) {
            Ok((Command::Version, p))
        } else if bytes_eq(tok.as_slice(), command_token_vec(Command::VerAck).as_slice()) {
            Ok((Command::VerAck, p))
        } else if bytes_eq(tok.as_slice(), command_token_vec(Command::SendHeaders).as_slice()) {
            Ok((Command::SendHeaders, p))
        } else if bytes_eq(tok.as_slice(), command_token_vec(Command::SendCmpct).as_slice()) {
            Ok((Command::SendCmpct, p))
        } else {
            Err(Error::Command(tok))
        }
    }
}

impl VariableInt {
    /// Appends the minimal-width variable-length encoding of the value.
    /// The write is all-or-nothing: on failure the sink is unchanged.
    pub fn encode(&self, sink: &mut ByteSink) -> (r: Result<usize, Error>)
        requires
            old(sink).wf(),
        ensures
            final(sink).wf(),
            final(sink).limit == old(sink).limit,
            old(sink).remaining() >= spec_varint_len(self@) ==> (r matches Ok(n) && n
                == spec_varint_len(self@) && final(sink)@ == old(sink)@ + spec_varint(self@)),
            old(sink).remaining() < spec_varint_len(self@) ==> (r matches Err(e)
                && e is NotEnoughSpace) && final(sink)@ == old(sink)@,
    {
        let v = self.0;
        let mut b: Vec<u8> = Vec::new();
        let n: usize;
        if v <= 0xFC {
            b.push(v as u8);
            n = 1;
        } else if v <= 0xFFFF {
            b.push(0xFD);
            let mut w = u16_to_le_bytes(v as u16);
            b.append(&mut w);
            n = 3;
        } else if v <= 0xFFFF_FFFF {
            b.push(0xFE);
            let mut w = u32_to_le_bytes(v as u32);
            b.append(&mut w);
            n = 5;
        } else {
            b.push(0xFF);
            let mut w = u64_to_le_bytes(v);
            b.append(&mut w);
            n = 9;
        }
        proof {
            assert(b@ =~= spec_varint(self@));
        }
        match encode_bytes(b.as_slice(), "variable int", sink) {
            Ok(_) => Ok(n),
            Err(e) => Err(e),
        }
    }

    /// Reads a variable-length integer: the marker byte, then as many
    /// value bytes as it announces. Wide forms of small values are
    /// accepted on decode; only the encoder is bound to minimal width.
    pub fn decode(data: &Vec<u8>, pos: usize) -> (r: Result<(VariableInt, usize), Error>)
        requires
            pos <= data@.len(),
        ensures
            match parse_varint(data@, pos as int) {
                Parsed::Found(v, p) => (r matches Ok(t) && t.0@ == v && t.1 == p),
                Parsed::Incomplete => (r matches Err(e) && e is NotEnoughBytes),
                Parsed::Invalid => false,
            },
    {
        if data.len() - pos < 1 {
            return Err(Error::NotEnoughBytes("variable int"));
        }
        let m = data[pos];
        if m == 0xFD {
            match decode_u16(data, pos + 1) {
                Ok((v, p)) => Ok((VariableInt(v as u64), p)),
                Err(e) => Err(e),
            }
        } else if m == 0xFE {
            match decode_u32(data, pos + 1) {
                Ok((v, p)) => Ok((VariableInt(v as u64), p)),
                Err(e) => Err(e),
            }
        } else if m == 0xFF {
            match decode_u64(data, pos + 1) {
                Ok((v, p)) => Ok((VariableInt(v), p)),
                Err(e) => Err(e),
            }
        } else {
            Ok((VariableInt(m as u64), pos + 1))
        }
    }
}

impl VariableLengthString {
    /// A value holding the UTF-8 bytes of the given text.
    pub fn from_text(s: &str) -> (r: VariableLengthString)
        ensures
            r@ == s.spec_bytes(),
    {
        VariableLengthString(s.as_bytes_vec())
    }

    /// The number of bytes the string holds.
    pub fn byte_len(&self) -> (r: usize)
        ensures
            r == self@.len(),
    {
        self.0.len()
    }

    /// Appends the length prefix, then the raw bytes.
    pub fn encode(&self, sink: &mut ByteSink) -> (r: Result<usize, Error>)
        requires
            old(sink).wf(),
        ensures
            final(sink).wf(),
            final(sink).limit == old(sink).limit,
            old(sink).remaining() >= spec_vls(self@).len() ==> (r matches Ok(n) && n == spec_vls(
                self@,
            ).len() && final(sink)@ == old(sink)@ + spec_vls(self@)),
            old(sink).remaining() < spec_vls(self@).len() ==> (r matches Err(e)
                && e is NotEnoughSpace) && old(sink)@.is_prefix_of(final(sink)@),
    {
        let prefix = VariableInt(self.0.len() as u64);
        proof {
            crate::encode::lemma_le_byte_lens();
        }
        let n1 = match prefix.encode(sink) {
            Ok(n) => n,
            Err(e) => {
                proof {
                    assert(old(sink)@.is_prefix_of(sink@)) by {
                        assert(sink@.take(old(sink)@.len() as int) =~= old(sink)@);
                    }
                }
                return Err(e);
            },
        };
        match encode_bytes(self.0.as_slice(), "variable length string", sink) {
            Ok(n2) => {
                proof {
                    assert(sink@ =~= old(sink)@ + spec_vls(self@));
                }
                Ok(n1 + n2)
            },
            Err(e) => {
                proof {
                    assert(old(sink)@.is_prefix_of(sink@)) by {
                        assert(sink@.take(old(sink)@.len() as int) =~= old(sink)@);
                    }
                }
                Err(e)
            },
        }
    }

    /// Reads a length prefix, then that many raw bytes.
    pub fn decode(data: &Vec<u8>, pos: usize) -> (r: Result<(VariableLengthString, usize), Error>)
        requires
            pos <= data@.len(),
        ensures
            match parse_vls(data@, pos as int) {
                Parsed::Found(v, p) => (r matches Ok(t) && t.0@ == v && t.1 == p),
                Parsed::Incomplete => (r matches Err(e) && e is NotEnoughBytes),
                Parsed::Invalid => false,
            },
    {
        let (n, p) = match VariableInt::decode(data, pos) {
            Ok(t) => t,
            Err(e) => {
                return Err(e);
            },
        };
        let avail: usize = data.len() - p;
        if (avail as u64) < n.0 {
            return Err(Error::NotEnoughBytes("variable length string"));
        }
        let len = n.0 as usize;
        match decode_raw(data, p, len, "variable length string") {
            Ok((bytes, p2)) => Ok((VariableLengthString(bytes), p2)),
            Err(e) => Err(e),
        }
    }
}

impl Address {
    /// Appends services, the 16 IP bytes, and the big-endian port.
    pub fn encode(&self, sink: &mut ByteSink) -> (r: Result<usize, Error>)
        requires
            old(sink).wf(),
        ensures
            final(sink).wf(),
            final(sink).limit == old(sink).limit,
            old(sink).remaining() >= spec_addr(self@).len() ==> (r matches Ok(n) && n == spec_addr(
                self@,
            ).len() && final(sink)@ == old(sink)@ + spec_addr(self@)),
            old(sink).remaining() < spec_addr(self@).len() ==> (r matches Err(e)
                && e is NotEnoughSpace) && old(sink)@.is_prefix_of(final(sink)@),
    {
        proof {
            crate::encode::lemma_le_byte_lens();
        }
        let n1 = match encode_u64(self.services, sink) {
            Ok(n) => n,
            Err(e) => {
                proof {
                    assert(old(sink)@.is_prefix_of(sink@)) by {
                        assert(sink@.take(old(sink)@.len() as int) =~= old(sink)@);
                    }
                }
                return Err(e);
            },
        };
        let n2 = match self.ip.encode(sink) {
            Ok(n) => n,
            Err(e) => {
                proof {
                    assert(old(sink)@.is_prefix_of(sink@)) by {
                        assert(sink@.take(old(sink)@.len() as int) =~= old(sink)@);
                    }
                }
                return Err(e);
            },
        };
        let n3 = match self.port.encode(sink) {
            Ok(n) => n,
            Err(e) => {
                proof {
                    assert(old(sink)@.is_prefix_of(sink@)) by {
                        assert(sink@.take(old(sink)@.len() as int) =~= old(sink)@);
                    }
                }
                return Err(e);
            },
        };
        proof {
            assert(sink@ =~= old(sink)@ + spec_addr(self@));
        }
        Ok(n1 + n2 + n3)
    }

    /// Reads services, 16 IP bytes, and a big-endian port.
    pub fn decode(data: &Vec<u8>, pos: usize) -> (r: Result<(Address, usize), Error>)
        requires
            pos <= data@.len(),
        ensures
            match parse_addr(data@, pos as int) {
                Parsed::Found(a, p) => (r matches Ok(t) && t.0@ == a && t.1 == p),
                Parsed::Incomplete => (r matches Err(e) && e is NotEnoughBytes),
                Parsed::Invalid => false,
            },
    {
        let (services, p1) = match decode_u64(data, pos) {
            Ok(t) => t,
            Err(e) => {
                return Err(e);
            },
        };
        let (ip, p2) = match IpAddr::decode(data, p1) {
            Ok(t) => t,
            Err(e) => {
                return Err(e);
            },
        };
        let (port, p3) = match Port::decode(data, p2) {
            Ok(t) => t,
            Err(e) => {
                return Err(e);
            },
        };
        Ok((Address { services, ip, port }, p3))
    }
}

impl VersionMessage {
    /// Appends every field of the version payload in its fixed order.
    pub fn encode(&self, sink: &mut ByteSink) -> (r: Result<usize, Error>)
        requires
            old(sink).wf(),
        ensures
            final(sink).wf(),
            final(sink).limit == old(sink).limit,
            old(sink).remaining() >= spec_version_msg(self@).len() ==> (r matches Ok(n) && n
                == spec_version_msg(self@).len() && final(sink)@ == old(sink)@ + spec_version_msg(
                self@,
            )),
            old(sink).remaining() < spec_version_msg(self@).len() ==> (r matches Err(e)
                && e is NotEnoughSpace) && old(sink)@.is_prefix_of(final(sink)@),
    {
        proof {
            crate::encode::lemma_le_byte_lens();
        }
        let n1 = match encode_i32(self.version, sink) {
            Ok(n) => n,
            Err(e) => {
                proof {
                    assert(old(sink)@.is_prefix_of(sink@)) by {
                        assert(sink@.take(old(sink)@.len() as int) =~= old(sink)@);
                    }
                }
                return Err(e);
            },
        };
        let n2 = match encode_u64(self.services, sink) {
            Ok(n) => n,
            Err(e) => {
                proof {
                    assert(old(sink)@.is_prefix_of(sink@)) by {
                        assert(sink@.take(old(sink)@.len() as int) =~= old(sink)@);
                    }
                }
                return Err(e);
            },
        };
        let n3 = match encode_i64(self.timestamp, sink) {
            Ok(n) => n,
            Err(e) => {
                proof {
                    assert(old(sink)@.is_prefix_of(sink@)) by {
                        assert(sink@.take(old(sink)@.len() as int) =~= old(sink)@);
                    }
                }
                return Err(e);
            },
        };
        let n4 = match self.addr_recv.encode(sink) {
            Ok(n) => n,
            Err(e) => {
                proof {
                    assert(old(sink)@.is_prefix_of(sink@)) by {
                        assert(sink@.take(old(sink)@.len() as int) =~= old(sink)@);
                    }
                }
                return Err(e);
            },
        };
        let n5 = match self.addr_from.encode(sink) {
            Ok(n) => n,
            Err(e) => {
                proof {
                    assert(old(sink)@.is_prefix_of(sink@)) by {
                        assert(sink@.take(old(sink)@.len() as int) =~= old(sink)@);
                    }
                }
                return Err(e);
            },
        };
        let n6 = match encode_u64(self.nonce, sink) {
            Ok(n) => n,
            Err(e) => {
                proof {
                    assert(old(sink)@.is_prefix_of(sink@)) by {
                        assert(sink@.take(old(sink)@.len() as int) =~= old(sink)@);
                    }
                }
                return Err(e);
            },
        };
        let n7 = match self.user_agent.encode(sink) {
            Ok(n) => n,
            Err(e) => {
                proof {
                    assert(old(sink)@.is_prefix_of(sink@)) by {
                        assert(sink@.take(old(sink)@.len() as int) =~= old(sink)@);
                    }
                }
                return Err(e);
            },
        };
        let n8 = match encode_i32(self.start_height, sink) {
            Ok(n) => n,
            Err(e) => {
                proof {
                    assert(old(sink)@.is_prefix_of(sink@)) by {
                        assert(sink@.take(old(sink)@.len() as int) =~= old(sink)@);
                    }
                }
                return Err(e);
            },
        };
        let n9 = match encode_bool(self.relay, sink) {
            Ok(n) => n,
            Err(e) => {
                proof {
                    assert(old(sink)@.is_prefix_of(sink@)) by {
                        assert(sink@.take(old(sink)@.len() as int) =~= old(sink)@);
                    }
                }
                return Err(e);
            },
        };
        proof {
            assert(sink@ =~= old(sink)@ + spec_version_msg(self@));
        }
        Ok(n1 + n2 + n3 + n4 + n5 + n6 + n7 + n8 + n9)
    }

    /// Reads every field of the version payload in its fixed order.
    pub fn decode(data: &Vec<u8>, pos: usize) -> (r: Result<(VersionMessage, usize), Error>)
        requires
            pos <= data@.len(),
        ensures
            match parse_version_msg(data@, pos as int) {
                Parsed::Found(v, p) => (r matches Ok(t) && t.0@ == v && t.1 == p),
                Parsed::Incomplete => (r matches Err(e) && e is NotEnoughBytes),
                Parsed::Invalid => false,
            },
    {
        let (version, p1) = match decode_i32(data, pos) {
            Ok(t) => t,
            Err(e) => {
                return Err(e);
            },
        };
        let (services, p2) = match decode_u64(data, p1) {
            Ok(t) => t,
            Err(e) => {
                return Err(e);
            },
        };
        let (timestamp, p3) = match decode_i64(data, p2) {
            Ok(t) => t,
            Err(e) => {
                return Err(e);
            },
        };
        let (addr_recv, p4) = match Address::decode(data, p3) {
            Ok(t) => t,
            Err(e) => {
                return Err(e);
            },
        };
        let (addr_from, p5) = match Address::decode(data, p4) {
            Ok(t) => t,
            Err(e) => {
                return Err(e);
            },
        };
        let (nonce, p6) = match decode_u64(data, p5) {
            Ok(t) => t,
            Err(e) => {
                return Err(e);
            },
        };
        let (user_agent, p7) = match VariableLengthString::decode(data, p6) {
            Ok(t) => t,
            Err(e) => {
                return Err(e);
            },
        };
        let (start_height, p8) = match decode_i32(data, p7) {
            Ok(t) => t,
            Err(e) => {
                return Err(e);
            },
        };
        let (relay, p9) = match decode_bool(data, p8) {
            Ok(t) => t,
            Err(e) => {
                return Err(e);
            },
        };
        Ok(
            (
                VersionMessage {
                    version,
                    services,
                    timestamp,
                    addr_recv,
                    addr_from,
                    nonce,
                    user_agent,
                    start_height,
                    relay,
                },
                p9,
            ),
        )
    }
}

impl Payload {
    /// Appends the payload bytes: a version payload's fields, or nothing
    /// for the payloads that carry no bytes.
    pub fn encode(&self, sink: &mut ByteSink) -> (r: Result<usize, Error>)
        requires
            old(sink).wf(),
        ensures
            final(sink).wf(),
            final(sink).limit == old(sink).limit,
            old(sink).remaining() >= spec_payload(self@).len() ==> (r matches Ok(n) && n
                == spec_payload(self@).len() && final(sink)@ == old(sink)@ + spec_payload(self@)),
            old(sink).remaining() < spec_payload(self@).len() ==> (r matches Err(e)
                && e is NotEnoughSpace) && old(sink)@.is_prefix_of(final(sink)@),
    {
        match self {
            Payload::Version(v) => v.encode(sink),
            Payload::VerAck => {
                proof {
                    assert(sink@ =~= sink@ + Seq::<u8>::empty());
                }
                Ok(0)
            },
            Payload::SendHeaders => {
                proof {
                    assert(sink@ =~= sink@ + Seq::<u8>::empty());
                }
                Ok(0)
            },
        }
    }

    /// Reads the payload that `command` keys; the command must already
    /// have been decoded from the envelope header.
    pub fn decode_command(command: Command, data: &Vec<u8>, pos: usize) -> (r: Result<
        (Payload, usize),
        Error,
    >)
        requires
            pos <= data@.len(),
        ensures
            match parse_payload(command, data@, pos as int) {
                Parsed::Found(p0, p) => (r matches Ok(t) && t.0@ == p0 && t.1 == p),
                Parsed::Incomplete => (r matches Err(e) && e is NotEnoughBytes),
                Parsed::Invalid => false,
            },
    {
        match command {
            Command::Version => match VersionMessage::decode(data, pos) {
                Ok((v, p)) => Ok((Payload::Version(v), p)),
                Err(e) => Err(e),
            },
            Command::VerAck => Ok((Payload::VerAck, pos)),
            Command::SendHeaders => Ok((Payload::SendHeaders, pos)),
            Command::SendCmpct => Ok((Payload::SendHeaders, pos)),
        }
    }
}

impl Message {
    /// Builds a message from its parts, deriving `length` and `checksum`
    /// from the serialized payload. Fails only when the payload's wire
    /// form cannot fit the 32-bit length field (or the machine's `usize`).
    pub fn new(magic: u32, command: Command, payload: Payload) -> (r: Result<Message, Error>)
        ensures
            spec_payload(payload@).len() <= u32::MAX && spec_payload(payload@).len() <= usize::MAX
                ==> (r matches Ok(m) && m@ == (MessageModel {
                magic,
                command,
                length: spec_payload(payload@).len() as u32,
                checksum: spec_checksum(spec_payload(payload@)),
                payload: payload@,
            })),
            !(spec_payload(payload@).len() <= u32::MAX && spec_payload(payload@).len()
                <= usize::MAX) ==> (r matches Err(e) && e is NotEnoughSpace),
    {
        let mut sink = ByteSink::new(usize::MAX);
        let written = match payload.encode(&mut sink) {
            Ok(n) => n,
            Err(e) => {
                return Err(e);
            },
        };
        if (written as u64) > 0xFFFF_FFFFu64 {
            return Err(Error::NotEnoughSpace("Message"));
        }
        proof {
            assert(sink@ =~= spec_payload(payload@));
        }
        let encoded = sink.into_bytes();
        let checksum = checksum32(&encoded);
        Ok(Message { magic, command, length: written as u32, checksum, payload })
    }

    /// Whether the stored header fields really are derived from the
    /// payload: `length` counts the serialized payload bytes and
    /// `checksum` is their digest. `Message::new` always establishes
    /// this; `Message::decode` returns the header fields as read off
    /// the wire without enforcing them, so a caller that wants them
    /// enforced on a received message asks here.
    pub fn check_integrity(&self) -> (r: bool)
        ensures
            r == self@.header_derived(),
    {
        let mut sink = ByteSink::new(usize::MAX);
        match self.payload.encode(&mut sink) {
            Ok(written) => {
                let bytes = sink.into_bytes();
                proof {
                    assert(bytes@ =~= spec_payload(self@.payload));
                }
                (written as u64) == (self.length as u64) && checksum32(&bytes) == self.checksum
            },
            Err(_) => {
                // the payload's wire form exceeds the machine's usize,
                // so it cannot match the 32-bit length field
                false
            },
        }
    }

    /// The payload this message carries.
    pub fn payload(&self) -> (r: &Payload)
        ensures
            r@ == self@.payload,
    {
        &self.payload
    }

    /// The magic value of the envelope header.
    pub fn magic(&self) -> (r: u32)
        ensures
            r == self@.magic,
    {
        self.magic
    }

    /// The command of the envelope header.
    pub fn command(&self) -> (r: Command)
        ensures
            r == self@.command,
    {
        self.command
    }

    /// The payload byte count stored in the envelope header.
    pub fn length(&self) -> (r: u32)
        ensures
            r == self@.length,
    {
        self.length
    }

    /// The payload checksum stored in the envelope header.
    pub fn checksum(&self) -> (r: u32)
        ensures
            r == self@.checksum,
    {
        self.checksum
    }

    /// Appends the envelope header, then the payload.
    pub fn encode(&self, sink: &mut ByteSink) -> (r: Result<usize, Error>)
        requires
            old(sink).wf(),
        ensures
            final(sink).wf(),
            final(sink).limit == old(sink).limit,
            spec_command_encodable(self@.command) && old(sink).remaining() >= spec_message(
                self@,
            ).len() ==> (r matches Ok(n) && n == spec_message(self@).len() && final(sink)@ == old(
                sink,
            )@ + spec_message(self@)),
            spec_command_encodable(self@.command) && old(sink).remaining() < spec_message(
                self@,
            ).len() ==> (r matches Err(e) && e is NotEnoughSpace) && old(sink)@.is_prefix_of(
                final(sink)@,
            ),
            !spec_command_encodable(self@.command) && old(sink).remaining() >= 16 ==> (r matches Err(
                e,
            ) && e is UnimplementedCommand) && old(sink)@.is_prefix_of(final(sink)@),
            !spec_command_encodable(self@.command) && old(sink).remaining() < 16 ==> (r matches Err(
                e,
            ) && e is NotEnoughSpace) && old(sink)@.is_prefix_of(final(sink)@),
    {
        proof {
            crate::encode::lemma_le_byte_lens();
        }
        let n1 = match encode_u32(self.magic, sink) {
            Ok(n) => n,
            Err(e) => {
                proof {
                    assert(old(sink)@.is_prefix_of(sink@)) by {
                        assert(sink@.take(old(sink)@.len() as int) =~= old(sink)@);
                    }
                }
                return Err(e);
            },
        };
        let n2 = match self.command.encode(sink) {
            Ok(n) => n,
            Err(e) => {
                proof {
                    assert(old(sink)@.is_prefix_of(sink@)) by {
                        assert(sink@.take(old(sink)@.len() as int) =~= old(sink)@);
                    }
                }
                return Err(e);
            },
        };
        let n3 = match encode_u32(self.length, sink) {
            Ok(n) => n,
            Err(e) => {
                proof {
                    assert(old(sink)@.is_prefix_of(sink@)) by {
                        assert(sink@.take(old(sink)@.len() as int) =~= old(sink)@);
                    }
                }
                return Err(e);
            },
        };
        let n4 = match encode_u32(self.checksum, sink) {
            Ok(n) => n,
            Err(e) => {
                proof {
                    assert(old(sink)@.is_prefix_of(sink@)) by {
                        assert(sink@.take(old(sink)@.len() as int) =~= old(sink)@);
                    }
                }
                return Err(e);
            },
        };
        let n5 = match self.payload.encode(sink) {
            Ok(n) => n,
            Err(e) => {
                proof {
                    assert(old(sink)@.is_prefix_of(sink@)) by {
                        assert(sink@.take(old(sink)@.len() as int) =~= old(sink)@);
                    }
                }
                return Err(e);
            },
        };
        proof {
            assert(sink@ =~= old(sink)@ + spec_message(self@));
        }
        Ok(n1 + n2 + n3 + n4 + n5)
    }

    /// Reads a whole message at `pos`: the envelope header, then the
    /// payload under the decoded command. Returns the message and the
    /// position just past it. The header's `length` and `checksum` are
    /// returned as read, not checked against the payload: see
    /// `check_integrity`. An unknown command token is a hard error
    /// carrying the token bytes; running out of input is
    /// `Error::NotEnoughBytes`.
    pub fn decode(data: &Vec<u8>, pos: usize) -> (r: Result<(Message, usize), Error>)
        requires
            pos <= data@.len(),
        ensures
            match parse_message(data@, pos as int) {
                Parsed::Found(m, p) => (r matches Ok(t) && t.0@ == m && t.1 == p),
                Parsed::Incomplete => (r matches Err(e) && e is NotEnoughBytes),
                Parsed::Invalid => (r matches Err(e) && e matches Error::Command(b) && b@
                    == data@.subrange(pos as int + 4, pos as int + 16)),
            },
    {
        let (magic, p1) = match decode_u32(data, pos) {
            Ok(t) => t,
            Err(e) => {
                return Err(e);
            },
        };
        let (command, p2) = match Command::decode(data, p1) {
            Ok(t) => t,
            Err(e) => {
                return Err(e);
            },
        };
        let (length, p3) = match decode_u32(data, p2) {
            Ok(t) => t,
            Err(e) => {
                return Err(e);
            },
        };
        let (checksum, p4) = match decode_u32(data, p3) {
            Ok(t) => t,
            Err(e) => {
                return Err(e);
            },
        };
        let (payload, p5) = match Payload::decode_command(command, data, p4) {
            Ok(t) => t,
            Err(e) => {
                return Err(e);
            },
        };
        Ok((Message { magic, command, length, checksum, payload }, p5))
    }
}


// ---------------------------------------------------------------------
// Parse positions stay within the data.
// ---------------------------------------------------------------------
/// A found variable-length integer ends after its marker, within the data.
pub proof fn lemma_parse_varint_bounds(data: Seq<u8>, pos: int)
    requires
        0 <= pos,
    ensures
        parse_varint(data, pos) matches Parsed::Found(v, p) ==> pos + 1 <= p <= data.len(),
{
}

/// A found length-prefixed string ends within the data.
pub proof fn lemma_parse_vls_bounds(data: Seq<u8>, pos: int)
    requires
        0 <= pos,
    ensures
        parse_vls(data, pos) matches Parsed::Found(s, p) ==> pos <= p <= data.len(),
{
    lemma_parse_varint_bounds(data, pos);
}

/// A found address record ends within the data.
pub proof fn lemma_parse_addr_bounds(data: Seq<u8>, pos: int)
    requires
        0 <= pos,
    ensures
        parse_addr(data, pos) matches Parsed::Found(a, p) ==> pos <= p <= data.len(),
{
}

/// A found version payload ends within the data.
pub proof fn lemma_parse_version_bounds(data: Seq<u8>, pos: int)
    requires
        0 <= pos,
    ensures
        parse_version_msg(data, pos) matches Parsed::Found(v, p) ==> pos <= p <= data.len(),
{
    match parse_i32(data, pos) {
        Parsed::Found(_, p1) => match parse_u64(data, p1) {
            Parsed::Found(_, p2) => match parse_i64(data, p2) {
                Parsed::Found(_, p3) => {
                    lemma_parse_addr_bounds(data, p3);
                    match parse_addr(data, p3) {
                        Parsed::Found(_, p4) => {
                            lemma_parse_addr_bounds(data, p4);
                            match parse_addr(data, p4) {
                                Parsed::Found(_, p5) => match parse_u64(data, p5) {
                                    Parsed::Found(_, p6) => {
                                        lemma_parse_vls_bounds(data, p6);
                                    },
                                    _ => {},
                                },
                                _ => {},
                            }
                        },
                        _ => {},
                    }
                },
                _ => {},
            },
            _ => {},
        },
        _ => {},
    }
}

/// A found message ends within the data.
pub proof fn lemma_parse_message_bounds(data: Seq<u8>, pos: int)
    requires
        0 <= pos,
    ensures
        parse_message(data, pos) matches Parsed::Found(m, p) ==> pos <= p <= data.len(),
{
    match parse_u32(data, pos) {
        Parsed::Found(_, p1) => match parse_command(data, p1) {
            Parsed::Found(_, p2) => match parse_u32(data, p2) {
                Parsed::Found(_, p3) => match parse_u32(data, p3) {
                    Parsed::Found(_, p4) => {
                        lemma_parse_version_bounds(data, p4);
                    },
                    _ => {},
                },
                _ => {},
            },
            _ => {},
        },
        _ => {},
    }
}

} // verus!
