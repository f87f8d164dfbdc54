//! Lemmas relating the wire form of each item to its parser: a parser
//! applied to an item's encoding (with anything after it) finds exactly
//! that item, and applied to a truncation of the encoding reports that
//! the bytes are incomplete.

use vstd::bytes::*;
use vstd::prelude::*;

use crate::decode::lemma_i32_wire_roundtrip;
use crate::decode::lemma_i64_wire_roundtrip;
use crate::decode::lemma_u16_be_roundtrip;
use crate::decode::parse_bool;
use crate::decode::parse_i32;
use crate::decode::parse_i64;
use crate::decode::parse_raw;
use crate::decode::parse_u16;
use crate::decode::parse_u16_be;
use crate::decode::parse_u32;
use crate::decode::parse_u64;
use crate::decode::Parsed;
use crate::encode::lemma_le_byte_lens;
use crate::encode::spec_bool_to_byte;
use crate::encode::spec_i32_as_u32;
use crate::encode::spec_i32_to_le_bytes;
use crate::encode::spec_i64_as_u64;
use crate::encode::spec_i64_to_le_bytes;
use crate::encode::spec_u16_to_be_bytes;
use crate::protocol::parse_addr;
use crate::protocol::parse_command;
use crate::protocol::parse_message;
use crate::protocol::parse_payload;
use crate::protocol::parse_varint;
use crate::protocol::parse_version_msg;
use crate::protocol::parse_vls;
use crate::protocol::spec_addr;
use crate::protocol::spec_command_token;
use crate::protocol::spec_message;
use crate::protocol::spec_payload;
use crate::protocol::spec_varint;
use crate::protocol::spec_varint_len;
use crate::protocol::spec_version_msg;
use crate::protocol::spec_vls;
use crate::protocol::AddrModel;
use crate::protocol::Command;
use crate::protocol::MessageModel;
use crate::protocol::PayloadModel;
use crate::protocol::VersionModel;

verus! {

/// A fully present slice of an item's encoding can be read off the
/// surrounding data.
pub proof fn lemma_sub_of_sub(data: Seq<u8>, pos: int, enc: Seq<u8>, s: int, e: int)
    requires
        0 <= pos,
        pos + enc.len() <= data.len(),
        data.subrange(pos, pos + enc.len()) == enc,
        0 <= s <= e <= enc.len(),
    ensures
        data.subrange(pos + s, pos + e) == enc.subrange(s, e),
{
    assert forall|i: int| 0 <= i < e - s implies data.subrange(pos + s, pos + e)[i] == enc.subrange(
        s,
        e,
    )[i] by {
        assert(enc[s + i] == data.subrange(pos, pos + enc.len())[s + i]);
    }
    assert(data.subrange(pos + s, pos + e) =~= enc.subrange(s, e));
}

/// A fully present leading piece of a truncated encoding can be read
/// off the surrounding data.
pub proof fn lemma_take_sub(data: Seq<u8>, pos: int, enc: Seq<u8>, s: int, e: int)
    requires
        0 <= pos <= data.len(),
        data.len() - pos <= enc.len(),
        data.subrange(pos, data.len() as int) == enc.take(data.len() - pos),
        0 <= s <= e <= data.len() - pos,
    ensures
        data.subrange(pos + s, pos + e) == enc.subrange(s, e),
{
    let k = data.len() - pos;
    assert forall|i: int| 0 <= i < e - s implies data.subrange(pos + s, pos + e)[i] == enc.subrange(
        s,
        e,
    )[i] by {
        assert(data.subrange(pos, data.len() as int)[s + i] == enc.take(k)[s + i]);
        assert(data.subrange(pos, data.len() as int)[s + i] == data[pos + s + i]);
        assert(enc.take(k)[s + i] == enc[s + i]);
        assert(data.subrange(pos + s, pos + e)[i] == data[pos + s + i]);
        assert(enc.subrange(s, e)[i] == enc[s + i]);
    }
    assert(data.subrange(pos + s, pos + e) =~= enc.subrange(s, e));
}

pub proof fn lemma_parse_u16_found(data: Seq<u8>, pos: int, v: u16)
    requires
        0 <= pos,
        pos + 2 <= data.len(),
        data.subrange(pos, pos + 2) == spec_u16_to_le_bytes(v),
    ensures
        parse_u16(data, pos) == Parsed::<u16>::Found(v, pos + 2),
{
    lemma_le_byte_lens();
}

pub proof fn lemma_parse_u32_found(data: Seq<u8>, pos: int, v: u32)
    requires
        0 <= pos,
        pos + 4 <= data.len(),
        data.subrange(pos, pos + 4) == spec_u32_to_le_bytes(v),
    ensures
        parse_u32(data, pos) == Parsed::<u32>::Found(v, pos + 4),
{
    lemma_le_byte_lens();
}

pub proof fn lemma_parse_u64_found(data: Seq<u8>, pos: int, v: u64)
    requires
        0 <= pos,
        pos + 8 <= data.len(),
        data.subrange(pos, pos + 8) == spec_u64_to_le_bytes(v),
    ensures
        parse_u64(data, pos) == Parsed::<u64>::Found(v, pos + 8),
{
    lemma_le_byte_lens();
}

pub proof fn lemma_parse_i32_found(data: Seq<u8>, pos: int, v: i32)
    requires
        0 <= pos,
        pos + 4 <= data.len(),
        data.subrange(pos, pos + 4) == spec_i32_to_le_bytes(v),
    ensures
        parse_i32(data, pos) == Parsed::<i32>::Found(v, pos + 4),
{
    lemma_parse_u32_found(data, pos, spec_i32_as_u32(v));
    lemma_i32_wire_roundtrip(v);
}

pub proof fn lemma_parse_i64_found(data: Seq<u8>, pos: int, v: i64)
    requires
        0 <= pos,
        pos + 8 <= data.len(),
        data.subrange(pos, pos + 8) == spec_i64_to_le_bytes(v),
    ensures
        parse_i64(data, pos) == Parsed::<i64>::Found(v, pos + 8),
{
    lemma_parse_u64_found(data, pos, spec_i64_as_u64(v));
    lemma_i64_wire_roundtrip(v);
}

pub proof fn lemma_parse_u16_be_found(data: Seq<u8>, pos: int, v: u16)
    requires
        0 <= pos,
        pos + 2 <= data.len(),
        data.subrange(pos, pos + 2) == spec_u16_to_be_bytes(v),
    ensures
        parse_u16_be(data, pos) == Parsed::<u16>::Found(v, pos + 2),
{
    lemma_u16_be_roundtrip(v);
}

pub proof fn lemma_parse_bool_found(data: Seq<u8>, pos: int, v: bool)
    requires
        0 <= pos,
        pos + 1 <= data.len(),
        data.subrange(pos, pos + 1) == spec_bool_to_byte(v),
    ensures
        parse_bool(data, pos) == Parsed::<bool>::Found(v, pos + 1),
{
    assert(data[pos] == spec_bool_to_byte(v)[0]);
}

pub proof fn lemma_parse_raw_found(data: Seq<u8>, pos: int, b: Seq<u8>)
    requires
        0 <= pos,
        pos + b.len() <= data.len(),
        data.subrange(pos, pos + b.len()) == b,
    ensures
        parse_raw(data, pos, b.len() as int) == Parsed::<Seq<u8>>::Found(b, pos + b.len()),
{
}

/// Different commands have different tokens.
pub proof fn lemma_tokens_distinct()
    ensures
        forall|c1: Command, c2: Command|
            c1 != c2 ==> spec_command_token(c1) != spec_command_token(c2),
{
    assert forall|c1: Command, c2: Command| c1 != c2 implies spec_command_token(c1)
        != spec_command_token(c2) by {
        if spec_command_token(c1) == spec_command_token(c2) {
            assert(spec_command_token(c1)[0] == spec_command_token(c2)[0]);
            assert(spec_command_token(c1)[3] == spec_command_token(c2)[3]);
            assert(spec_command_token(c1)[4] == spec_command_token(c2)[4]);
        }
    }
}

pub proof fn lemma_parse_command_found(data: Seq<u8>, pos: int, c: Command)
    requires
        0 <= pos,
        pos + 12 <= data.len(),
        data.subrange(pos, pos + 12) == spec_command_token(c),
    ensures
        parse_command(data, pos) == Parsed::<Command>::Found(c, pos + 12),
{
    lemma_tokens_distinct();
}

pub proof fn lemma_parse_varint_found(data: Seq<u8>, pos: int, v: u64)
    requires
        0 <= pos,
        pos + spec_varint_len(v) <= data.len(),
        data.subrange(pos, pos + spec_varint_len(v)) == spec_varint(v),
    ensures
        parse_varint(data, pos) == Parsed::<u64>::Found(v, pos + spec_varint_len(v)),
{
    lemma_le_byte_lens();
    let enc = spec_varint(v);
    assert(data[pos] == enc[0]);
    if v <= 0xFC {
        assert(data[pos] == v as u8);
    } else if v <= 0xFFFF {
        assert(enc.subrange(1, 3) =~= spec_u16_to_le_bytes(v as u16));
        lemma_sub_of_sub(data, pos, enc, 1, 3);
        lemma_parse_u16_found(data, pos + 1, v as u16);
    } else if v <= 0xFFFF_FFFF {
        assert(enc.subrange(1, 5) =~= spec_u32_to_le_bytes(v as u32));
        lemma_sub_of_sub(data, pos, enc, 1, 5);
        lemma_parse_u32_found(data, pos + 1, v as u32);
    } else {
        assert(enc.subrange(1, 9) =~= spec_u64_to_le_bytes(v));
        lemma_sub_of_sub(data, pos, enc, 1, 9);
        lemma_parse_u64_found(data, pos + 1, v);
    }
}

pub proof fn lemma_parse_vls_found(data: Seq<u8>, pos: int, s: Seq<u8>)
    requires
        0 <= pos,
        s.len() <= u64::MAX,
        pos + spec_vls(s).len() <= data.len(),
        data.subrange(pos, pos + spec_vls(s).len()) == spec_vls(s),
    ensures
        parse_vls(data, pos) == Parsed::<Seq<u8>>::Found(s, pos + spec_vls(s).len()),
{
    lemma_le_byte_lens();
    let n = s.len() as u64;
    let enc = spec_vls(s);
    let vl = spec_varint_len(n);
    assert(enc.subrange(0, vl) =~= spec_varint(n));
    lemma_sub_of_sub(data, pos, enc, 0, vl);
    lemma_parse_varint_found(data, pos, n);
    assert(enc.subrange(vl, enc.len() as int) =~= s);
    lemma_sub_of_sub(data, pos, enc, vl, enc.len() as int);
}

pub proof fn lemma_parse_addr_found(data: Seq<u8>, pos: int, a: AddrModel)
    requires
        0 <= pos,
        a.wf(),
        pos + 26 <= data.len(),
        data.subrange(pos, pos + 26) == spec_addr(a),
    ensures
        parse_addr(data, pos) == Parsed::<AddrModel>::Found(a, pos + 26),
{
    lemma_le_byte_lens();
    let enc = spec_addr(a);
    assert(enc.len() == 26);
    assert(enc.subrange(0, 8) =~= spec_u64_to_le_bytes(a.services));
    lemma_sub_of_sub(data, pos, enc, 0, 8);
    lemma_parse_u64_found(data, pos, a.services);
    assert(enc.subrange(8, 24) =~= a.ip);
    lemma_sub_of_sub(data, pos, enc, 8, 24);
    lemma_parse_raw_found(data, pos + 8, a.ip);
    assert(enc.subrange(24, 26) =~= spec_u16_to_be_bytes(a.port));
    lemma_sub_of_sub(data, pos, enc, 24, 26);
    lemma_parse_u16_be_found(data, pos + 24, a.port);
    match parse_addr(data, pos) {
        Parsed::Found(b, p) => {
            assert(b.services == a.services && b.ip == a.ip && b.port == a.port);
        },
        _ => {},
    }
}

pub proof fn lemma_parse_version_found(data: Seq<u8>, pos: int, m: VersionModel)
    requires
        0 <= pos,
        m.wf(),
        pos + spec_version_msg(m).len() <= data.len(),
        data.subrange(pos, pos + spec_version_msg(m).len()) == spec_version_msg(m),
    ensures
        parse_version_msg(data, pos) == Parsed::<VersionModel>::Found(
            m,
            pos + spec_version_msg(m).len(),
        ),
{
    lemma_le_byte_lens();
    let enc = spec_version_msg(m);
    let ul = spec_vls(m.user_agent).len() as int;
    assert(enc.len() == 85 + ul);
    assert(enc.subrange(0, 4) =~= spec_i32_to_le_bytes(m.version));
    lemma_sub_of_sub(data, pos, enc, 0, 4);
    lemma_parse_i32_found(data, pos, m.version);
    assert(enc.subrange(4, 12) =~= spec_u64_to_le_bytes(m.services));
    lemma_sub_of_sub(data, pos, enc, 4, 12);
    lemma_parse_u64_found(data, pos + 4, m.services);
    assert(enc.subrange(12, 20) =~= spec_i64_to_le_bytes(m.timestamp));
    lemma_sub_of_sub(data, pos, enc, 12, 20);
    lemma_parse_i64_found(data, pos + 12, m.timestamp);
    assert(enc.subrange(20, 46) =~= spec_addr(m.addr_recv));
    lemma_sub_of_sub(data, pos, enc, 20, 46);
    lemma_parse_addr_found(data, pos + 20, m.addr_recv);
    assert(enc.subrange(46, 72) =~= spec_addr(m.addr_from));
    lemma_sub_of_sub(data, pos, enc, 46, 72);
    lemma_parse_addr_found(data, pos + 46, m.addr_from);
    assert(enc.subrange(72, 80) =~= spec_u64_to_le_bytes(m.nonce));
    lemma_sub_of_sub(data, pos, enc, 72, 80);
    lemma_parse_u64_found(data, pos + 72, m.nonce);
    assert(enc.subrange(80, 80 + ul) =~= spec_vls(m.user_agent));
    lemma_sub_of_sub(data, pos, enc, 80, 80 + ul);
    lemma_parse_vls_found(data, pos + 80, m.user_agent);
    assert(enc.subrange(80 + ul, 84 + ul) =~= spec_i32_to_le_bytes(m.start_height));
    lemma_sub_of_sub(data, pos, enc, 80 + ul, 84 + ul);
    lemma_parse_i32_found(data, pos + 80 + ul, m.start_height);
    assert(enc.subrange(84 + ul, 85 + ul) =~= spec_bool_to_byte(m.relay));
    lemma_sub_of_sub(data, pos, enc, 84 + ul, 85 + ul);
    lemma_parse_bool_found(data, pos + 84 + ul, m.relay);
    match parse_version_msg(data, pos) {
        Parsed::Found(v, p) => {
            assert(v.version == m.version && v.services == m.services && v.timestamp == m.timestamp
                && v.addr_recv == m.addr_recv && v.addr_from == m.addr_from && v.nonce == m.nonce
                && v.user_agent == m.user_agent && v.start_height == m.start_height && v.relay
                == m.relay);
        },
        _ => {},
    }
}

pub proof fn lemma_parse_payload_found(c: Command, data: Seq<u8>, pos: int, p: PayloadModel)
    requires
        0 <= pos,
        p.wf(),
        match (c, p) {
            (Command::Version, PayloadModel::Version(_)) => true,
            (Command::VerAck, PayloadModel::VerAck) => true,
            (Command::SendHeaders, PayloadModel::SendHeaders) => true,
            (Command::SendCmpct, PayloadModel::SendHeaders) => true,
            _ => false,
        },
        pos + spec_payload(p).len() <= data.len(),
        data.subrange(pos, pos + spec_payload(p).len()) == spec_payload(p),
    ensures
        parse_payload(c, data, pos) == Parsed::<PayloadModel>::Found(p, pos + spec_payload(p).len()),
{
    match p {
        PayloadModel::Version(v) => {
            lemma_parse_version_found(data, pos, v);
        },
        PayloadModel::VerAck => {},
        PayloadModel::SendHeaders => {},
    }
}

pub proof fn lemma_parse_message_found(data: Seq<u8>, pos: int, m: MessageModel)
    requires
        0 <= pos,
        m.payload.wf(),
        match (m.command, m.payload) {
            (Command::Version, PayloadModel::Version(_)) => true,
            (Command::VerAck, PayloadModel::VerAck) => true,
            (Command::SendHeaders, PayloadModel::SendHeaders) => true,
            (Command::SendCmpct, PayloadModel::SendHeaders) => true,
            _ => false,
        },
        pos + spec_message(m).len() <= data.len(),
        data.subrange(pos, pos + spec_message(m).len()) == spec_message(m),
    ensures
        parse_message(data, pos) == Parsed::<MessageModel>::Found(m, pos + spec_message(m).len()),
{
    lemma_le_byte_lens();
    let enc = spec_message(m);
    let pl = spec_payload(m.payload).len() as int;
    assert(enc.len() == 24 + pl);
    assert(enc.subrange(0, 4) =~= spec_u32_to_le_bytes(m.magic));
    lemma_sub_of_sub(data, pos, enc, 0, 4);
    lemma_parse_u32_found(data, pos, m.magic);
    assert(enc.subrange(4, 16) =~= spec_command_token(m.command));
    lemma_sub_of_sub(data, pos, enc, 4, 16);
    lemma_parse_command_found(data, pos + 4, m.command);
    assert(enc.subrange(16, 20) =~= spec_u32_to_le_bytes(m.length));
    lemma_sub_of_sub(data, pos, enc, 16, 20);
    lemma_parse_u32_found(data, pos + 16, m.length);
    assert(enc.subrange(20, 24) =~= spec_u32_to_le_bytes(m.checksum));
    lemma_sub_of_sub(data, pos, enc, 20, 24);
    lemma_parse_u32_found(data, pos + 20, m.checksum);
    assert(enc.subrange(24, 24 + pl) =~= spec_payload(m.payload));
    lemma_sub_of_sub(data, pos, enc, 24, 24 + pl);
    lemma_parse_payload_found(m.command, data, pos + 24, m.payload);
    match parse_message(data, pos) {
        Parsed::Found(v, p) => {
            assert(v.magic == m.magic && v.command == m.command && v.length == m.length
                && v.checksum == m.checksum && v.payload == m.payload);
        },
        _ => {},
    }
}


// ---------------------------------------------------------------------
// Truncations of a valid encoding parse as incomplete, never as a
// value and never as corruption.
// ---------------------------------------------------------------------
pub proof fn lemma_parse_varint_incomplete(data: Seq<u8>, pos: int, v: u64)
    requires
        0 <= pos <= data.len(),
        data.len() < pos + spec_varint_len(v),
        data.subrange(pos, data.len() as int) == spec_varint(v).take(data.len() - pos),
    ensures
        parse_varint(data, pos) == Parsed::<u64>::Incomplete,
{
    lemma_le_byte_lens();
    if data.len() > pos {
        assert(data[pos] == data.subrange(pos, data.len() as int)[0]);
        assert(data[pos] == spec_varint(v)[0]);
    }
}

pub proof fn lemma_parse_vls_incomplete(data: Seq<u8>, pos: int, s: Seq<u8>)
    requires
        0 <= pos <= data.len(),
        s.len() <= u64::MAX,
        data.len() < pos + spec_vls(s).len(),
        data.subrange(pos, data.len() as int) == spec_vls(s).take(data.len() - pos),
    ensures
        parse_vls(data, pos) == Parsed::<Seq<u8>>::Incomplete,
{
    lemma_le_byte_lens();
    let n = s.len() as u64;
    let vl = spec_varint_len(n);
    let k = data.len() - pos;
    if k < vl {
        assert(data.subrange(pos, data.len() as int) =~= spec_varint(n).take(k));
        lemma_parse_varint_incomplete(data, pos, n);
    } else {
        assert(spec_vls(s).subrange(0, vl) =~= spec_varint(n));
        lemma_take_sub(data, pos, spec_vls(s), 0, vl);
        lemma_parse_varint_found(data, pos, n);
    }
}

pub proof fn lemma_parse_addr_incomplete(data: Seq<u8>, pos: int, a: AddrModel)
    requires
        0 <= pos <= data.len(),
        a.wf(),
        data.len() < pos + 26,
        data.subrange(pos, data.len() as int) == spec_addr(a).take(data.len() - pos),
    ensures
        parse_addr(data, pos) == Parsed::<AddrModel>::Incomplete,
{
    lemma_le_byte_lens();
    let enc = spec_addr(a);
    let k = data.len() - pos;
    assert(enc.len() == 26);
    if k >= 8 {
        assert(enc.subrange(0, 8) =~= spec_u64_to_le_bytes(a.services));
        lemma_take_sub(data, pos, enc, 0, 8);
        lemma_parse_u64_found(data, pos, a.services);
        if k >= 24 {
            assert(enc.subrange(8, 24) =~= a.ip);
            lemma_take_sub(data, pos, enc, 8, 24);
            lemma_parse_raw_found(data, pos + 8, a.ip);
        }
    }
}

pub proof fn lemma_parse_version_incomplete(data: Seq<u8>, pos: int, m: VersionModel)
    requires
        0 <= pos <= data.len(),
        m.wf(),
        data.len() < pos + spec_version_msg(m).len(),
        data.subrange(pos, data.len() as int) == spec_version_msg(m).take(data.len() - pos),
    ensures
        parse_version_msg(data, pos) == Parsed::<VersionModel>::Incomplete,
{
    lemma_le_byte_lens();
    let enc = spec_version_msg(m);
    let ul = spec_vls(m.user_agent).len() as int;
    let k = data.len() - pos;
    assert(enc.len() == 85 + ul);
    if k >= 4 {
        assert(enc.subrange(0, 4) =~= spec_i32_to_le_bytes(m.version));
        lemma_take_sub(data, pos, enc, 0, 4);
        lemma_parse_i32_found(data, pos, m.version);
        if k >= 12 {
            assert(enc.subrange(4, 12) =~= spec_u64_to_le_bytes(m.services));
            lemma_take_sub(data, pos, enc, 4, 12);
            lemma_parse_u64_found(data, pos + 4, m.services);
            if k >= 20 {
                assert(enc.subrange(12, 20) =~= spec_i64_to_le_bytes(m.timestamp));
                lemma_take_sub(data, pos, enc, 12, 20);
                lemma_parse_i64_found(data, pos + 12, m.timestamp);
                if k < 46 {
                    assert(data.subrange(pos + 20, data.len() as int) =~= spec_addr(
                        m.addr_recv,
                    ).take(k - 20)) by {
                        assert forall|i: int|
                                #![trigger data.subrange(pos + 20, data.len() as int)[i]]
                                0 <= i < k - 20 implies data.subrange(
                            pos + 20,
                            data.len() as int,
                        )[i] == spec_addr(m.addr_recv).take(k - 20)[i] by {
                            assert(data.subrange(pos, data.len() as int)[20 + i] == enc.take(
                                k,
                            )[20 + i]);
                            assert(spec_addr(m.addr_recv)[i] == enc[20 + i]);
                        }
                    }
                    lemma_parse_addr_incomplete(data, pos + 20, m.addr_recv);
                } else {
                    assert(enc.subrange(20, 46) =~= spec_addr(m.addr_recv));
                    lemma_take_sub(data, pos, enc, 20, 46);
                    lemma_parse_addr_found(data, pos + 20, m.addr_recv);
                    if k < 72 {
                        assert(data.subrange(pos + 46, data.len() as int) =~= spec_addr(
                            m.addr_from,
                        ).take(k - 46)) by {
                            assert forall|i: int|
                                #![trigger data.subrange(pos + 46, data.len() as int)[i]]
                                0 <= i < k - 46 implies data.subrange(
                                pos + 46,
                                data.len() as int,
                            )[i] == spec_addr(m.addr_from).take(k - 46)[i] by {
                                assert(data.subrange(pos, data.len() as int)[46 + i] == enc.take(
                                    k,
                                )[46 + i]);
                                assert(spec_addr(m.addr_from)[i] == enc[46 + i]);
                            }
                        }
                        lemma_parse_addr_incomplete(data, pos + 46, m.addr_from);
                    } else {
                        assert(enc.subrange(46, 72) =~= spec_addr(m.addr_from));
                        lemma_take_sub(data, pos, enc, 46, 72);
                        lemma_parse_addr_found(data, pos + 46, m.addr_from);
                        if k >= 80 {
                            assert(enc.subrange(72, 80) =~= spec_u64_to_le_bytes(m.nonce));
                            lemma_take_sub(data, pos, enc, 72, 80);
                            lemma_parse_u64_found(data, pos + 72, m.nonce);
                            if k < 80 + ul {
                                assert(data.subrange(pos + 80, data.len() as int) =~= spec_vls(
                                    m.user_agent,
                                ).take(k - 80)) by {
                                    assert forall|i: int|
                                #![trigger data.subrange(pos + 80, data.len() as int)[i]]
                                0 <= i < k - 80 implies data.subrange(
                                        pos + 80,
                                        data.len() as int,
                                    )[i] == spec_vls(m.user_agent).take(k - 80)[i] by {
                                        assert(data.subrange(pos, data.len() as int)[80 + i]
                                            == enc.take(k)[80 + i]);
                                        assert(spec_vls(m.user_agent)[i] == enc[80 + i]);
                                    }
                                }
                                lemma_parse_vls_incomplete(data, pos + 80, m.user_agent);
                            } else {
                                assert(enc.subrange(80, 80 + ul) =~= spec_vls(m.user_agent));
                                lemma_take_sub(data, pos, enc, 80, 80 + ul);
                                lemma_parse_vls_found(data, pos + 80, m.user_agent);
                                if k >= 84 + ul {
                                    assert(enc.subrange(80 + ul, 84 + ul) =~= spec_i32_to_le_bytes(
                                        m.start_height,
                                    ));
                                    lemma_take_sub(data, pos, enc, 80 + ul, 84 + ul);
                                    lemma_parse_i32_found(data, pos + 80 + ul, m.start_height);
                                }
                            }
                        }
                    }
                }
            }
        }
    }
}

pub proof fn lemma_parse_message_incomplete(data: Seq<u8>, pos: int, m: MessageModel)
    requires
        0 <= pos <= data.len(),
        m.wf(),
        data.len() < pos + spec_message(m).len(),
        data.subrange(pos, data.len() as int) == spec_message(m).take(data.len() - pos),
    ensures
        parse_message(data, pos) == Parsed::<MessageModel>::Incomplete,
{
    lemma_le_byte_lens();
    let enc = spec_message(m);
    let pl = spec_payload(m.payload).len() as int;
    let k = data.len() - pos;
    assert(enc.len() == 24 + pl);
    if k >= 4 {
        assert(enc.subrange(0, 4) =~= spec_u32_to_le_bytes(m.magic));
        lemma_take_sub(data, pos, enc, 0, 4);
        lemma_parse_u32_found(data, pos, m.magic);
        if k >= 16 {
            assert(enc.subrange(4, 16) =~= spec_command_token(m.command));
            lemma_take_sub(data, pos, enc, 4, 16);
            lemma_parse_command_found(data, pos + 4, m.command);
            if k >= 20 {
                assert(enc.subrange(16, 20) =~= spec_u32_to_le_bytes(m.length));
                lemma_take_sub(data, pos, enc, 16, 20);
                lemma_parse_u32_found(data, pos + 16, m.length);
                if k >= 24 {
                    assert(enc.subrange(20, 24) =~= spec_u32_to_le_bytes(m.checksum));
                    lemma_take_sub(data, pos, enc, 20, 24);
                    lemma_parse_u32_found(data, pos + 20, m.checksum);
                    match m.payload {
                        PayloadModel::Version(v) => {
                            assert(data.subrange(pos + 24, data.len() as int) =~= spec_version_msg(
                                v,
                            ).take(k - 24)) by {
                                assert forall|i: int|
                                #![trigger data.subrange(pos + 24, data.len() as int)[i]]
                                0 <= i < k - 24 implies data.subrange(
                                    pos + 24,
                                    data.len() as int,
                                )[i] == spec_version_msg(v).take(k - 24)[i] by {
                                    assert(data.subrange(pos, data.len() as int)[24 + i]
                                        == enc.take(k)[24 + i]);
                                    assert(spec_version_msg(v)[i] == enc[24 + i]);
                                }
                            }
                            lemma_parse_version_incomplete(data, pos + 24, v);
                        },
                        PayloadModel::VerAck => {},
                        PayloadModel::SendHeaders => {},
                    }
                }
            }
        }
    }
}

} // verus!
