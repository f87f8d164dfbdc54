//! The integrity digest of a payload: the first four bytes, read
//! little-endian, of SHA-256 applied twice to the payload bytes.

use sha2::Digest;
use vstd::bytes::*;
use vstd::prelude::*;

verus! {

/// The SHA-256 digest of a byte sequence. The digest is a pure function
/// of the input bytes; its value is not spelled out here, only used by
/// name in contracts.
pub uninterp spec fn sha256_of(b: Seq<u8>) -> Seq<u8>;

/// Relies on sha2::Sha256 through digest::Digest: the 32-byte SHA-256
/// digest, a function of the input bytes alone.
#[verifier::external_body]
fn sha256_digest(bytes: &Vec<u8>) -> (r: Vec<u8>)
    ensures
        r@ == sha256_of(bytes@),
        r@.len() == 32,
{
    let mut hasher = sha2::Sha256::new();
    hasher.update(bytes.as_slice());
    hasher.finalize().as_slice().to_vec()
}

/// The checksum of a byte sequence: the first four bytes of the double
/// SHA-256 digest, read as a little-endian 32-bit value.
pub open spec fn spec_checksum(b: Seq<u8>) -> u32 {
    spec_u32_from_le_bytes(sha256_of(sha256_of(b)).subrange(0, 4))
}

/// Computes the checksum of `bytes`.
pub fn checksum32(bytes: &Vec<u8>) -> (r: u32)
    ensures
        r == spec_checksum(bytes@),
{
    let first = sha256_digest(bytes);
    let second = sha256_digest(&first);
    let head = vstd::slice::slice_subrange(second.as_slice(), 0, 4);
    u32_from_le_bytes(head)
}

/// The checksum of a buffer of payload bytes.
pub trait Checksum {
    /// The bytes the checksum is taken over.
    spec fn checksum_input(&self) -> Seq<u8>;

    /// The truncated double-SHA-256 digest of these bytes.
    fn sha256(&self) -> (r: u32)
        ensures
            r == spec_checksum(self.checksum_input()),
    ;
}

impl Checksum for Vec<u8> {
    open spec fn checksum_input(&self) -> Seq<u8> {
        self@
    }

    fn sha256(&self) -> (r: u32) {
        checksum32(self)
    }
}

} // verus!
