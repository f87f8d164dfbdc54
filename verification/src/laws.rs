//! The laws this library states about itself, proved over the
//! spec-level models that the executable functions' contracts use.

use vstd::prelude::*;

use crate::checksum::spec_checksum;
use crate::decode::parse_raw;
use crate::decode::Parsed;
use crate::protocol::parse_command;
use crate::protocol::parse_message;
use crate::protocol::parse_varint;
use crate::protocol::spec_command_encodable;
use crate::protocol::spec_command_token;
use crate::protocol::spec_message;
use crate::protocol::spec_v4_mapped;
use crate::protocol::spec_varint;
use crate::protocol::spec_varint_len;
use crate::protocol::Command;
use crate::protocol::MessageModel;

verus! {

/// Round trip: the wire bytes of a well-formed message, followed by any
/// further bytes, parse back to exactly that message, consuming exactly
/// its encoding. (Well-formed: the command agrees with the payload
/// variant, which also means the command is encodable.)
pub proof fn lemma_message_round_trip(m: MessageModel, rest: Seq<u8>)
    requires
        m.wf(),
    ensures
        parse_message(spec_message(m) + rest, 0) == Parsed::<MessageModel>::Found(
            m,
            spec_message(m).len() as int,
        ),
{
    let data = spec_message(m) + rest;
    assert(data.subrange(0, spec_message(m).len() as int) =~= spec_message(m));
    crate::lemmas::lemma_parse_message_found(data, 0, m);
}

/// Minimality of the variable-length integer encoding: every value is
/// encoded in exactly the minimal-width form of the boundary table —
/// one byte up to 0xFC, three up to 0xFFFF, five up to 0xFFFFFFFF, nine
/// beyond — and parsing a minimal encoding reproduces the value.
pub proof fn lemma_varint_minimality(v: u64, rest: Seq<u8>)
    ensures
        spec_varint(v).len() == spec_varint_len(v),
        v <= 0xFC ==> spec_varint_len(v) == 1,
        0xFD <= v <= 0xFFFF ==> spec_varint_len(v) == 3,
        0x1_0000 <= v <= 0xFFFF_FFFF ==> spec_varint_len(v) == 5,
        v > 0xFFFF_FFFF ==> spec_varint_len(v) == 9,
        parse_varint(spec_varint(v) + rest, 0) == Parsed::<u64>::Found(v, spec_varint_len(v)),
{
    crate::encode::lemma_le_byte_lens();
    let data = spec_varint(v) + rest;
    assert(data.subrange(0, spec_varint_len(v)) =~= spec_varint(v));
    crate::lemmas::lemma_parse_varint_found(data, 0, v);
}

/// Partial input: every strict prefix of a well-formed message's wire
/// bytes parses as incomplete — never as a message and never as a hard
/// error — so a framer fed one byte at a time reports "no message yet"
/// until the final byte arrives.
pub proof fn lemma_framer_partial_input(m: MessageModel, k: int)
    requires
        m.wf(),
        0 <= k < spec_message(m).len(),
    ensures
        parse_message(spec_message(m).take(k), 0) == Parsed::<MessageModel>::Incomplete,
{
    let data = spec_message(m).take(k);
    assert(data.subrange(0, data.len() as int) =~= spec_message(m).take(data.len() - 0));
    crate::lemmas::lemma_parse_message_incomplete(data, 0, m);
}

/// Draining several buffered messages: two messages back to back parse
/// as the first message, leaving exactly the second message's bytes;
/// those parse as the second message, leaving nothing; and an empty
/// buffer reports that no message is available.
pub proof fn lemma_framer_two_messages(m1: MessageModel, m2: MessageModel)
    requires
        m1.wf(),
        m2.wf(),
    ensures
        ({
            let blob = spec_message(m1) + spec_message(m2);
            let n1 = spec_message(m1).len() as int;
            &&& parse_message(blob, 0) == Parsed::<MessageModel>::Found(m1, n1)
            &&& blob.subrange(n1, blob.len() as int) == spec_message(m2)
            &&& parse_message(spec_message(m2), 0) == Parsed::<MessageModel>::Found(
                m2,
                spec_message(m2).len() as int,
            )
            &&& parse_message(Seq::<u8>::empty(), 0) == Parsed::<MessageModel>::Incomplete
        }),
{
    let blob = spec_message(m1) + spec_message(m2);
    let n1 = spec_message(m1).len() as int;
    lemma_message_round_trip(m1, spec_message(m2));
    assert(blob.subrange(n1, blob.len() as int) =~= spec_message(m2));
    lemma_message_round_trip(m2, Seq::<u8>::empty());
    assert(spec_message(m2) + Seq::<u8>::empty() =~= spec_message(m2));
}

/// The checksum is a pure function of the payload bytes: equal byte
/// sequences always have equal checksums.
pub proof fn lemma_checksum_deterministic(a: Seq<u8>, b: Seq<u8>)
    requires
        a == b,
    ensures
        spec_checksum(a) == spec_checksum(b),
{
}

/// Command-token round trip: every command except the unimplemented one
/// has a fixed 12-byte token, and that token — followed by anything —
/// decodes back to the same command.
pub proof fn lemma_command_token_round_trip(c: Command, rest: Seq<u8>)
    requires
        spec_command_encodable(c),
    ensures
        spec_command_token(c).len() == 12,
        parse_command(spec_command_token(c) + rest, 0) == Parsed::<Command>::Found(c, 12),
{
    let data = spec_command_token(c) + rest;
    assert(data.subrange(0, 12) =~= spec_command_token(c));
    crate::lemmas::lemma_parse_command_found(data, 0, c);
}

/// The version 4 address quirk: the 16-byte image of a version 4
/// address is twelve zero bytes followed by the four octets — not the
/// standard mapped prefix — and decoding that image hands back exactly
/// those 16 bytes, unreinterpreted.
pub proof fn lemma_ipv4_quirk(a: u8, b: u8, c: u8, d: u8, rest: Seq<u8>)
    ensures
        spec_v4_mapped(a, b, c, d).len() == 16,
        forall|i: int| 0 <= i < 12 ==> spec_v4_mapped(a, b, c, d)[i] == 0,
        spec_v4_mapped(a, b, c, d)[12] == a,
        spec_v4_mapped(a, b, c, d)[13] == b,
        spec_v4_mapped(a, b, c, d)[14] == c,
        spec_v4_mapped(a, b, c, d)[15] == d,
        parse_raw(spec_v4_mapped(a, b, c, d) + rest, 0, 16) == Parsed::<Seq<u8>>::Found(
            spec_v4_mapped(a, b, c, d),
            16,
        ),
{
    let data = spec_v4_mapped(a, b, c, d) + rest;
    assert(data.subrange(0, 16) =~= spec_v4_mapped(a, b, c, d));
    crate::lemmas::lemma_parse_raw_found(data, 0, spec_v4_mapped(a, b, c, d));
}

} // verus!
