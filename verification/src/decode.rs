//! The byte source side: spec-level parsers and the decoders for
//! fixed-width scalars.
//!
//! A spec parser maps a byte sequence and a start position to one of
//! three outcomes, so that contracts can distinguish truncation (wait
//! for more bytes) from corruption (a hard error). Each executable
//! decoder returns exactly what its spec parser says.

use vstd::bytes::*;
use vstd::prelude::*;

use crate::error::Error;

verus! {

/// The outcome of parsing one item at a position of a byte sequence.
///
/// - `Found(v, end)`: the item `v` lies at `[pos, end)`.
/// - `Incomplete`: the bytes run out before the item is complete; more
///   input could still turn the parse into `Found`.
/// - `Invalid`: the bytes present are structurally wrong; more input
///   cannot help.
pub enum Parsed<T> {
    Found(T, int),
    Incomplete,
    Invalid,
}

/// The signed reading of a two's-complement 32-bit image.
pub open spec fn spec_u32_as_i32(v: u32) -> i32 {
    if v <= 0x7FFF_FFFF {
        v as i32
    } else {
        (v - 0x1_0000_0000) as i32
    }
}

/// The signed reading of a two's-complement 64-bit image.
pub open spec fn spec_u64_as_i64(v: u64) -> i64 {
    if v <= 0x7FFF_FFFF_FFFF_FFFF {
        v as i64
    } else {
        (v - 0x1_0000_0000_0000_0000) as i64
    }
}

/// The value of big-endian bytes (used only for ports).
pub open spec fn spec_u16_from_be_bytes(s: Seq<u8>) -> u16
    recommends
        s.len() == 2,
{
    ((s[0] as u16) << 8) | (s[1] as u16)
}

/// The two's-complement images are inverse to their signed readings.
pub proof fn lemma_i32_wire_roundtrip(x: i32)
    ensures
        spec_u32_as_i32(crate::encode::spec_i32_as_u32(x)) == x,
{
}

/// The two's-complement images are inverse to their signed readings.
pub proof fn lemma_i64_wire_roundtrip(x: i64)
    ensures
        spec_u64_as_i64(crate::encode::spec_i64_as_u64(x)) == x,
{
}

/// Big-endian encoding and reading are inverse.
pub proof fn lemma_u16_be_roundtrip(x: u16)
    ensures
        spec_u16_from_be_bytes(crate::encode::spec_u16_to_be_bytes(x)) == x,
{
    let s = crate::encode::spec_u16_to_be_bytes(x);
    assert((((((x >> 8) & 0xff) as u8) as u16) << 8) | (((x & 0xff) as u8) as u16) == x)
        by (bit_vector);
}

/// Parses `n` raw bytes.
pub open spec fn parse_raw(data: Seq<u8>, pos: int, n: int) -> Parsed<Seq<u8>> {
    if pos + n <= data.len() {
        Parsed::Found(data.subrange(pos, pos + n), pos + n)
    } else {
        Parsed::Incomplete
    }
}

/// Parses one byte.
pub open spec fn parse_u8(data: Seq<u8>, pos: int) -> Parsed<u8> {
    if pos + 1 <= data.len() {
        Parsed::Found(data[pos], pos + 1)
    } else {
        Parsed::Incomplete
    }
}

/// Parses a little-endian 16-bit value.
pub open spec fn parse_u16(data: Seq<u8>, pos: int) -> Parsed<u16> {
    if pos + 2 <= data.len() {
        Parsed::Found(spec_u16_from_le_bytes(data.subrange(pos, pos + 2)), pos + 2)
    } else {
        Parsed::Incomplete
    }
}

/// Parses a little-endian 32-bit value.
pub open spec fn parse_u32(data: Seq<u8>, pos: int) -> Parsed<u32> {
    if pos + 4 <= data.len() {
        Parsed::Found(spec_u32_from_le_bytes(data.subrange(pos, pos + 4)), pos + 4)
    } else {
        Parsed::Incomplete
    }
}

/// Parses a little-endian 64-bit value.
pub open spec fn parse_u64(data: Seq<u8>, pos: int) -> Parsed<u64> {
    if pos + 8 <= data.len() {
        Parsed::Found(spec_u64_from_le_bytes(data.subrange(pos, pos + 8)), pos + 8)
    } else {
        Parsed::Incomplete
    }
}

/// Parses a signed little-endian 32-bit value (two's complement).
pub open spec fn parse_i32(data: Seq<u8>, pos: int) -> Parsed<i32> {
    match parse_u32(data, pos) {
        Parsed::Found(v, p) => Parsed::Found(spec_u32_as_i32(v), p),
        Parsed::Incomplete => Parsed::Incomplete,
        Parsed::Invalid => Parsed::Invalid,
    }
}

/// Parses a signed little-endian 64-bit value (two's complement).
pub open spec fn parse_i64(data: Seq<u8>, pos: int) -> Parsed<i64> {
    match parse_u64(data, pos) {
        Parsed::Found(v, p) => Parsed::Found(spec_u64_as_i64(v), p),
        Parsed::Incomplete => Parsed::Incomplete,
        Parsed::Invalid => Parsed::Invalid,
    }
}

/// Parses a big-endian 16-bit value.
pub open spec fn parse_u16_be(data: Seq<u8>, pos: int) -> Parsed<u16> {
    if pos + 2 <= data.len() {
        Parsed::Found(spec_u16_from_be_bytes(data.subrange(pos, pos + 2)), pos + 2)
    } else {
        Parsed::Incomplete
    }
}

/// Parses one byte as a boolean: any nonzero byte reads as true.
pub open spec fn parse_bool(data: Seq<u8>, pos: int) -> Parsed<bool> {
    if pos + 1 <= data.len() {
        Parsed::Found(data[pos] != 0, pos + 1)
    } else {
        Parsed::Incomplete
    }
}

/// Reads `n` raw bytes at `pos`.
pub fn decode_raw(data: &Vec<u8>, pos: usize, n: usize, name: &'static str) -> (r: Result<
    (Vec<u8>, usize),
    Error,
>)
    requires
        pos <= data@.len(),
    ensures
        match parse_raw(data@, pos as int, n as int) {
            Parsed::Found(v, p) => (r matches Ok(t) && t.0@ == v && t.1 == p),
            Parsed::Incomplete => (r matches Err(e) && e is NotEnoughBytes),
            Parsed::Invalid => false,
        },
{
    if data.len() - pos < n {
        return Err(Error::NotEnoughBytes(name));
    }
    let s = vstd::slice::slice_subrange(data.as_slice(), pos, pos + n);
    Ok((vstd::slice::slice_to_vec(s), pos + n))
}

/// Reads one byte at `pos`.
pub fn decode_u8(data: &Vec<u8>, pos: usize) -> (r: Result<(u8, usize), Error>)
    requires
        pos <= data@.len(),
    ensures
        match parse_u8(data@, pos as int) {
            Parsed::Found(v, p) => (r matches Ok(t) && t.0 == v && t.1 == p),
            Parsed::Incomplete => (r matches Err(e) && e is NotEnoughBytes),
            Parsed::Invalid => false,
        },
{
    if data.len() - pos < 1 {
        return Err(Error::NotEnoughBytes("u8"));
    }
    Ok((data[pos], pos + 1))
}

/// Reads a little-endian 16-bit value at `pos`.
pub fn decode_u16(data: &Vec<u8>, pos: usize) -> (r: Result<(u16, usize), Error>)
    requires
        pos <= data@.len(),
    ensures
        match parse_u16(data@, pos as int) {
            Parsed::Found(v, p) => (r matches Ok(t) && t.0 == v && t.1 == p),
            Parsed::Incomplete => (r matches Err(e) && e is NotEnoughBytes),
            Parsed::Invalid => false,
        },
{
    if data.len() - pos < 2 {
        return Err(Error::NotEnoughBytes("u16"));
    }
    let s = vstd::slice::slice_subrange(data.as_slice(), pos, pos + 2);
    Ok((u16_from_le_bytes(s), pos + 2))
}

/// Reads a little-endian 32-bit value at `pos`.
pub fn decode_u32(data: &Vec<u8>, pos: usize) -> (r: Result<(u32, usize), Error>)
    requires
        pos <= data@.len(),
    ensures
        match parse_u32(data@, pos as int) {
            Parsed::Found(v, p) => (r matches Ok(t) && t.0 == v && t.1 == p),
            Parsed::Incomplete => (r matches Err(e) && e is NotEnoughBytes),
            Parsed::Invalid => false,
        },
{
    if data.len() - pos < 4 {
        return Err(Error::NotEnoughBytes("u32"));
    }
    let s = vstd::slice::slice_subrange(data.as_slice(), pos, pos + 4);
    Ok((u32_from_le_bytes(s), pos + 4))
}

/// Reads a little-endian 64-bit value at `pos`.
pub fn decode_u64(data: &Vec<u8>, pos: usize) -> (r: Result<(u64, usize), Error>)
    requires
        pos <= data@.len(),
    ensures
        match parse_u64(data@, pos as int) {
            Parsed::Found(v, p) => (r matches Ok(t) && t.0 == v && t.1 == p),
            Parsed::Incomplete => (r matches Err(e) && e is NotEnoughBytes),
            Parsed::Invalid => false,
        },
{
    if data.len() - pos < 8 {
        return Err(Error::NotEnoughBytes("u64"));
    }
    let s = vstd::slice::slice_subrange(data.as_slice(), pos, pos + 8);
    Ok((u64_from_le_bytes(s), pos + 8))
}

/// Reads a signed little-endian 32-bit value at `pos`.
pub fn decode_i32(data: &Vec<u8>, pos: usize) -> (r: Result<(i32, usize), Error>)
    requires
        pos <= data@.len(),
    ensures
        match parse_i32(data@, pos as int) {
            Parsed::Found(v, p) => (r matches Ok(t) && t.0 == v && t.1 == p),
            Parsed::Incomplete => (r matches Err(e) && e is NotEnoughBytes),
            Parsed::Invalid => false,
        },
{
    match decode_u32(data, pos) {
        Ok((v, p)) => {
            let x: i32 = if v <= 0x7FFF_FFFF {
                v as i32
            } else {
                ((v as i64) - 0x1_0000_0000i64) as i32
            };
            Ok((x, p))
        },
        Err(_) => Err(Error::NotEnoughBytes("i32")),
    }
}

/// Reads a signed little-endian 64-bit value at `pos`.
pub fn decode_i64(data: &Vec<u8>, pos: usize) -> (r: Result<(i64, usize), Error>)
    requires
        pos <= data@.len(),
    ensures
        match parse_i64(data@, pos as int) {
            Parsed::Found(v, p) => (r matches Ok(t) && t.0 == v && t.1 == p),
            Parsed::Incomplete => (r matches Err(e) && e is NotEnoughBytes),
            Parsed::Invalid => false,
        },
{
    match decode_u64(data, pos) {
        Ok((v, p)) => {
            let x: i64 = if v <= 0x7FFF_FFFF_FFFF_FFFF {
                v as i64
            } else {
                ((v as i128) - 0x1_0000_0000_0000_0000i128) as i64
            };
            Ok((x, p))
        },
        Err(_) => Err(Error::NotEnoughBytes("i64")),
    }
}

/// Reads a big-endian 16-bit value at `pos`.
pub fn decode_u16_be(data: &Vec<u8>, pos: usize) -> (r: Result<(u16, usize), Error>)
    requires
        pos <= data@.len(),
    ensures
        match parse_u16_be(data@, pos as int) {
            Parsed::Found(v, p) => (r matches Ok(t) && t.0 == v && t.1 == p),
            Parsed::Incomplete => (r matches Err(e) && e is NotEnoughBytes),
            Parsed::Invalid => false,
        },
{
    if data.len() - pos < 2 {
        return Err(Error::NotEnoughBytes("port"));
    }
    let hi = data[pos];
    let lo = data[pos + 1];
    let v: u16 = ((hi as u16) << 8) | (lo as u16);
    proof {
        let s = data@.subrange(pos as int, pos as int + 2);
        assert(s[0] == data@[pos as int] && s[1] == data@[pos as int + 1]);
    }
    Ok((v, pos + 2))
}

/// Reads one byte at `pos` as a boolean: any nonzero byte is true.
pub fn decode_bool(data: &Vec<u8>, pos: usize) -> (r: Result<(bool, usize), Error>)
    requires
        pos <= data@.len(),
    ensures
        match parse_bool(data@, pos as int) {
            Parsed::Found(v, p) => (r matches Ok(t) && t.0 == v && t.1 == p),
            Parsed::Incomplete => (r matches Err(e) && e is NotEnoughBytes),
            Parsed::Invalid => false,
        },
{
    if data.len() - pos < 1 {
        return Err(Error::NotEnoughBytes("bool"));
    }
    Ok((data[pos] != 0, pos + 1))
}

/// True exactly when two byte slices hold the same bytes.
pub fn bytes_eq(a: &[u8], b: &[u8]) -> (r: bool)
    ensures
        r <==> a@ == b@,
{
    if a.len() != b.len() {
        proof {
            assert(a@.len() != b@.len());
        }
        return false;
    }
    let n = a.len();
    let mut i: usize = 0;
    while i < n
        invariant
            n == a@.len() && n == b@.len(),
            0 <= i <= n,
            forall|j: int| 0 <= j < i ==> a@[j] == b@[j],
        decreases n - i,
    {
        if *vstd::slice::slice_index_get(a, i) != *vstd::slice::slice_index_get(b, i) {
            return false;
        }
        i = i + 1;
    }
    proof {
        assert(a@ =~= b@);
    }
    true
}

} // verus!
