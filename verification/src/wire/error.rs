//! Why a datagram is not a message.

use vstd::prelude::*;

verus! {

/// What is wrong with a datagram that does not decode.
#[derive(Clone, Copy, Debug, PartialEq, Eq, Structural)]
pub enum CodecError {
    /// The packed stream, or the message in it, ends too early.
    Truncated,
    /// A union's tag names no member.
    UnknownTag,
    /// The parts are there, but not as the encoder lays them out.
    Malformed,
}

} // verus!
