//! The byte sink and the encoders for fixed-width scalars.
//!
//! Every multi-byte integer of the protocol is little-endian on the wire,
//! with one documented exception: the port of an address is big-endian
//! (see `spec_u16_to_be_bytes`). Encoding fails with an
//! insufficient-capacity error when fewer bytes remain in the sink than
//! the item's width; it is never silently truncated.

use vstd::bytes::*;
use vstd::prelude::*;

use crate::error::Error;

verus! {

/// A bounded byte sink: a growable output buffer together with the
/// capacity it was given. An encoder appends to `bytes` and fails once
/// an item would not fit below `limit`.
pub struct ByteSink {
    pub bytes: Vec<u8>,
    pub limit: usize,
}

impl View for ByteSink {
    type V = Seq<u8>;

    open spec fn view(&self) -> Seq<u8> {
        self.bytes@
    }
}

impl ByteSink {
    /// Well-formedness: what was written so far fits under the limit.
    pub open spec fn wf(&self) -> bool {
        self.bytes@.len() <= self.limit
    }

    /// How many more bytes the sink accepts.
    pub open spec fn remaining(&self) -> int {
        self.limit - self.bytes@.len()
    }

    /// An empty sink that accepts up to `limit` bytes.
    pub fn new(limit: usize) -> (s: ByteSink)
        ensures
            s@ == Seq::<u8>::empty(),
            s.limit == limit,
            s.wf(),
    {
        ByteSink { bytes: Vec::new(), limit }
    }

    /// The number of bytes written so far.
    pub fn len(&self) -> (r: usize)
        ensures
            r == self@.len(),
    {
        self.bytes.len()
    }

    /// Hands the written bytes out, consuming the sink.
    pub fn into_bytes(self) -> (r: Vec<u8>)
        ensures
            r@ == self@,
    {
        self.bytes
    }
}

/// The little-endian byte images have their fixed widths and read back
/// to the value they encode.
pub proof fn lemma_le_byte_lens()
    ensures
        forall|x: u16|
            (#[trigger] spec_u16_to_le_bytes(x)).len() == 2 && spec_u16_from_le_bytes(
                spec_u16_to_le_bytes(x),
            ) == x,
        forall|x: u32|
            (#[trigger] spec_u32_to_le_bytes(x)).len() == 4 && spec_u32_from_le_bytes(
                spec_u32_to_le_bytes(x),
            ) == x,
        forall|x: u64|
            (#[trigger] spec_u64_to_le_bytes(x)).len() == 8 && spec_u64_from_le_bytes(
                spec_u64_to_le_bytes(x),
            ) == x,
{
    lemma_auto_spec_u16_to_from_le_bytes();
    lemma_auto_spec_u32_to_from_le_bytes();
    lemma_auto_spec_u64_to_from_le_bytes();
}

/// The single wire byte of a boolean: zero for false, one for true.
pub open spec fn spec_bool_to_byte(b: bool) -> Seq<u8> {
    seq![if b { 1u8 } else { 0u8 }]
}

/// The big-endian bytes of a 16-bit value (used only for ports).
pub open spec fn spec_u16_to_be_bytes(x: u16) -> Seq<u8> {
    seq![((x >> 8) & 0xff) as u8, (x & 0xff) as u8]
}

/// The two's-complement 32-bit image of a signed value.
pub open spec fn spec_i32_as_u32(x: i32) -> u32 {
    if x >= 0 {
        x as u32
    } else {
        (x + 0x1_0000_0000) as u32
    }
}

/// The two's-complement 64-bit image of a signed value.
pub open spec fn spec_i64_as_u64(x: i64) -> u64 {
    if x >= 0 {
        x as u64
    } else {
        (x + 0x1_0000_0000_0000_0000) as u64
    }
}

/// The little-endian bytes of a signed 32-bit value (two's complement).
pub open spec fn spec_i32_to_le_bytes(x: i32) -> Seq<u8> {
    spec_u32_to_le_bytes(spec_i32_as_u32(x))
}

/// The little-endian bytes of a signed 64-bit value (two's complement).
pub open spec fn spec_i64_to_le_bytes(x: i64) -> Seq<u8> {
    spec_u64_to_le_bytes(spec_i64_as_u64(x))
}

/// Appends the bytes of `b` to the sink if they fit.
pub fn encode_bytes(b: &[u8], name: &'static str, sink: &mut ByteSink) -> (r: Result<
    usize,
    Error,
>)
    requires
        old(sink).wf(),
    ensures
        final(sink).wf(),
        final(sink).limit == old(sink).limit,
        old(sink).remaining() >= b@.len() ==> (r matches Ok(n) && n == b@.len() && final(sink)@
            == old(sink)@ + b@),
        old(sink).remaining() < b@.len() ==> (r matches Err(e) && e == Error::NotEnoughSpace(name))
            && final(sink)@ == old(sink)@,
{
    let rem: usize = sink.limit - sink.bytes.len();
    if rem < b.len() {
        return Err(Error::NotEnoughSpace(name));
    }
    sink.bytes.extend_from_slice(b);
    proof {
        assert(sink.bytes@ =~= old(sink).bytes@ + b@);
    }
    Ok(b.len())
}

/// Appends one byte.
pub fn encode_u8(v: u8, sink: &mut ByteSink) -> (r: Result<usize, Error>)
    requires
        old(sink).wf(),
    ensures
        final(sink).wf(),
        final(sink).limit == old(sink).limit,
        old(sink).remaining() >= 1 ==> r == Ok::<usize, Error>(1usize) && final(sink)@ == old(
            sink,
        )@ + seq![v],
        old(sink).remaining() < 1 ==> (r matches Err(e) && e is NotEnoughSpace) && final(sink)@
            == old(sink)@,
{
    let mut b: Vec<u8> = Vec::new();
    b.push(v);
    proof {
        assert(b@ =~= seq![v]);
    }
    match encode_bytes(b.as_slice(), "u8", sink) {
        Ok(_) => Ok(1),
        Err(e) => Err(e),
    }
}

/// Appends a 16-bit value, little-endian.
pub fn encode_u16(v: u16, sink: &mut ByteSink) -> (r: Result<usize, Error>)
    requires
        old(sink).wf(),
    ensures
        final(sink).wf(),
        final(sink).limit == old(sink).limit,
        old(sink).remaining() >= 2 ==> r == Ok::<usize, Error>(2usize) && final(sink)@ == old(
            sink,
        )@ + spec_u16_to_le_bytes(v),
        old(sink).remaining() < 2 ==> (r matches Err(e) && e is NotEnoughSpace) && final(sink)@
            == old(sink)@,
{
    let b = u16_to_le_bytes(v);
    match encode_bytes(b.as_slice(), "u16", sink) {
        Ok(_) => Ok(2),
        Err(e) => Err(e),
    }
}

/// Appends a 32-bit value, little-endian.
pub fn encode_u32(v: u32, sink: &mut ByteSink) -> (r: Result<usize, Error>)
    requires
        old(sink).wf(),
    ensures
        final(sink).wf(),
        final(sink).limit == old(sink).limit,
        old(sink).remaining() >= 4 ==> r == Ok::<usize, Error>(4usize) && final(sink)@ == old(
            sink,
        )@ + spec_u32_to_le_bytes(v),
        old(sink).remaining() < 4 ==> (r matches Err(e) && e is NotEnoughSpace) && final(sink)@
            == old(sink)@,
{
    let b = u32_to_le_bytes(v);
    match encode_bytes(b.as_slice(), "u32", sink) {
        Ok(_) => Ok(4),
        Err(e) => Err(e),
    }
}

/// Appends a 64-bit value, little-endian.
pub fn encode_u64(v: u64, sink: &mut ByteSink) -> (r: Result<usize, Error>)
    requires
        old(sink).wf(),
    ensures
        final(sink).wf(),
        final(sink).limit == old(sink).limit,
        old(sink).remaining() >= 8 ==> r == Ok::<usize, Error>(8usize) && final(sink)@ == old(
            sink,
        )@ + spec_u64_to_le_bytes(v),
        old(sink).remaining() < 8 ==> (r matches Err(e) && e is NotEnoughSpace) && final(sink)@
            == old(sink)@,
{
    let b = u64_to_le_bytes(v);
    match encode_bytes(b.as_slice(), "u64", sink) {
        Ok(_) => Ok(8),
        Err(e) => Err(e),
    }
}

/// Appends a signed 32-bit value as its two's-complement little-endian bytes.
pub fn encode_i32(v: i32, sink: &mut ByteSink) -> (r: Result<usize, Error>)
    requires
        old(sink).wf(),
    ensures
        final(sink).wf(),
        final(sink).limit == old(sink).limit,
        old(sink).remaining() >= 4 ==> r == Ok::<usize, Error>(4usize) && final(sink)@ == old(
            sink,
        )@ + spec_i32_to_le_bytes(v),
        old(sink).remaining() < 4 ==> (r matches Err(e) && e is NotEnoughSpace) && final(sink)@
            == old(sink)@,
{
    let u: u32 = if v >= 0 {
        v as u32
    } else {
        ((v as i64) + 0x1_0000_0000i64) as u32
    };
    encode_u32(u, sink)
}

/// Appends a signed 64-bit value as its two's-complement little-endian bytes.
pub fn encode_i64(v: i64, sink: &mut ByteSink) -> (r: Result<usize, Error>)
    requires
        old(sink).wf(),
    ensures
        final(sink).wf(),
        final(sink).limit == old(sink).limit,
        old(sink).remaining() >= 8 ==> r == Ok::<usize, Error>(8usize) && final(sink)@ == old(
            sink,
        )@ + spec_i64_to_le_bytes(v),
        old(sink).remaining() < 8 ==> (r matches Err(e) && e is NotEnoughSpace) && final(sink)@
            == old(sink)@,
{
    let u: u64 = if v >= 0 {
        v as u64
    } else {
        ((v as i128) + 0x1_0000_0000_0000_0000i128) as u64
    };
    encode_u64(u, sink)
}

/// Appends one byte: zero for false, one for true.
pub fn encode_bool(v: bool, sink: &mut ByteSink) -> (r: Result<usize, Error>)
    requires
        old(sink).wf(),
    ensures
        final(sink).wf(),
        final(sink).limit == old(sink).limit,
        old(sink).remaining() >= 1 ==> r == Ok::<usize, Error>(1usize) && final(sink)@ == old(
            sink,
        )@ + spec_bool_to_byte(v),
        old(sink).remaining() < 1 ==> (r matches Err(e) && e is NotEnoughSpace) && final(sink)@
            == old(sink)@,
{
    encode_u8(if v { 1 } else { 0 }, sink)
}

/// Appends a 16-bit value, big-endian. On this wire only the port of an
/// address is big-endian; every other scalar is little-endian.
pub fn encode_u16_be(v: u16, sink: &mut ByteSink) -> (r: Result<usize, Error>)
    requires
        old(sink).wf(),
    ensures
        final(sink).wf(),
        final(sink).limit == old(sink).limit,
        old(sink).remaining() >= 2 ==> r == Ok::<usize, Error>(2usize) && final(sink)@ == old(
            sink,
        )@ + spec_u16_to_be_bytes(v),
        old(sink).remaining() < 2 ==> (r matches Err(e) && e is NotEnoughSpace) && final(sink)@
            == old(sink)@,
{
    let hi: u8 = ((v >> 8) & 0xff) as u8;
    let lo: u8 = (v & 0xff) as u8;
    let mut b: Vec<u8> = Vec::new();
    b.push(hi);
    b.push(lo);
    proof {
        assert(b@ =~= spec_u16_to_be_bytes(v));
    }
    match encode_bytes(b.as_slice(), "port", sink) {
        Ok(_) => Ok(2),
        Err(e) => Err(e),
    }
}

} // verus!
