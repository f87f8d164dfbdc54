//! The streaming framer: extracts whole messages from a growable
//! receive buffer fed by short, arbitrary network reads.
//!
//! Each call consumes at most one message from the front of the buffer.
//! A buffer that does not yet hold a complete message is left untouched
//! and reported as "no message available" — truncation is a request for
//! more bytes, never an error. Only structural corruption (an unknown
//! command token) is surfaced as an error, also leaving the buffer
//! untouched.

use vstd::prelude::*;

use crate::decode::Parsed;
use crate::encode::ByteSink;
use crate::error::Error;
use crate::protocol::lemma_parse_message_bounds;
use crate::protocol::parse_message;
use crate::protocol::spec_command_encodable;
use crate::protocol::spec_message;
use crate::protocol::Message;

verus! {

/// The framer. It holds no state of its own: the receive buffer is
/// owned by the transport loop that calls it.
pub struct BitcoinCodec;

impl BitcoinCodec {
    /// Appends one message's wire bytes to the outgoing sink.
    pub fn encode(&self, item: &Message, dst: &mut ByteSink) -> (r: Result<usize, Error>)
        requires
            old(dst).wf(),
        ensures
            final(dst).wf(),
            final(dst).limit == old(dst).limit,
            spec_command_encodable(item@.command) && old(dst).remaining() >= spec_message(
                item@,
            ).len() ==> (r matches Ok(n) && n == spec_message(item@).len() && final(dst)@ == old(
                dst,
            )@ + spec_message(item@)),
            spec_command_encodable(item@.command) && old(dst).remaining() < spec_message(
                item@,
            ).len() ==> (r matches Err(e) && e is NotEnoughSpace) && old(dst)@.is_prefix_of(
                final(dst)@,
            ),
            !spec_command_encodable(item@.command) && old(dst).remaining() >= 16 ==> (r matches Err(
                e,
            ) && e is UnimplementedCommand) && old(dst)@.is_prefix_of(final(dst)@),
            !spec_command_encodable(item@.command) && old(dst).remaining() < 16 ==> (r matches Err(
                e,
            ) && e is NotEnoughSpace) && old(dst)@.is_prefix_of(final(dst)@),
    {
        item.encode(dst)
    }

    /// Takes at most one message off the front of the receive buffer.
    ///
    /// - A complete message at the front is decoded, its bytes are
    ///   drained, and the rest of the buffer is kept for the next call.
    /// - An empty or incompletely filled buffer yields `Ok(None)` and is
    ///   left untouched.
    /// - An unknown command token is a hard error carrying the token
    ///   bytes; the buffer is left untouched.
    pub fn decode(&self, src: &mut Vec<u8>) -> (r: Result<Option<Message>, Error>)
        ensures
            match parse_message(old(src)@, 0) {
                Parsed::Found(m, n) => (r matches Ok(o) && o matches Some(msg) && msg@ == m)
                    && final(src)@ == old(src)@.subrange(n, old(src)@.len() as int),
                Parsed::Incomplete => r == Ok::<Option<Message>, Error>(None) && final(src)@ == old(
                    src,
                )@,
                Parsed::Invalid => (r matches Err(e) && e matches Error::Command(b) && b@ == old(
                    src,
                )@.subrange(4, 16)) && final(src)@ == old(src)@,
            },
    {
        if src.len() == 0 {
            return Ok(None);
        }
        proof {
            lemma_parse_message_bounds(src@, 0);
        }
        match Message::decode(src, 0) {
            Ok((msg, n)) => {
                let rest = src.split_off(n);
                *src = rest;
                Ok(Some(msg))
            },
            Err(e) => match e {
                Error::NotEnoughBytes(_) => Ok(None),
                _ => Err(e),
            },
        }
    }
}

/// Encodes one message to a fresh byte buffer: the envelope header,
/// then the payload.
pub fn encode_message(m: &Message) -> (r: Result<Vec<u8>, Error>)
    ensures
        spec_command_encodable(m@.command) && spec_message(m@).len() <= usize::MAX ==> (r matches Ok(
            v,
        ) && v@ == spec_message(m@)),
        spec_command_encodable(m@.command) && spec_message(m@).len() > usize::MAX ==> (r matches Err(
            e,
        ) && e is NotEnoughSpace),
        !spec_command_encodable(m@.command) ==> (r matches Err(e) && e is UnimplementedCommand),
{
    let mut sink = ByteSink::new(usize::MAX);
    match m.encode(&mut sink) {
        Ok(_) => {
            proof {
                assert(sink@ =~= spec_message(m@));
            }
            Ok(sink.into_bytes())
        },
        Err(e) => Err(e),
    }
}

} // verus!
