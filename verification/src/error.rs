//! The error taxonomy of the codec.
//!
//! Every failure of the codec is a typed, returned error; no verified
//! function of this crate panics.

use vstd::prelude::*;

verus! {

/// What can go wrong while encoding or decoding.
///
/// - `NotEnoughBytes`: a decode was attempted past the available input.
///   The carried name says which item ran out of bytes. At a message
///   boundary the framer treats this as "need more data".
/// - `NotEnoughSpace`: an encode was attempted into a sink whose remaining
///   capacity is too small. The carried name says which item did not fit.
/// - `Command`: a 12-byte command token matched no known command. The
///   offending token bytes are carried for diagnostics.
/// - `UnimplementedCommand`: an encode was attempted for a command variant
///   that has no wire token assigned on the encoding side.
#[derive(Debug, Clone, PartialEq, Eq)]
pub enum Error {
    NotEnoughBytes(&'static str),
    NotEnoughSpace(&'static str),
    Command(Vec<u8>),
    UnimplementedCommand,
}

impl Error {
    /// A short description of the error kind, for callers that report it.
    pub fn describe(&self) -> (r: &'static str)
        ensures
            r@ == match self {
                Error::NotEnoughBytes(_) => "not enough bytes to decode"@,
                Error::NotEnoughSpace(_) => "not enough space to encode"@,
                Error::Command(_) => "unhandled command"@,
                Error::UnimplementedCommand => "unimplemented command"@,
            },
    {
        match self {
            Error::NotEnoughBytes(_) => "not enough bytes to decode",
            Error::NotEnoughSpace(_) => "not enough space to encode",
            Error::Command(_) => "unhandled command",
            Error::UnimplementedCommand => "unimplemented command",
        }
    }
}

} // verus!
