//! Errors raised by the packet layers. Buffer access failures keep their
//! own type in the buffer module and are carried here unchanged.

use vstd::prelude::*;
use crate::mbuf::BufferError;

verus! {

/// Error when a byte range does not parse as the requested layer; carries
/// a short description of the mismatch.
#[derive(Clone, Copy, Debug)]
pub struct ParseError {
    /// What was malformed or inconsistent.
    pub reason: &'static str,
}

/// Error when the segment list of a segment routing header would be empty.
#[derive(Clone, Copy, Debug)]
pub struct BadSegmentsError;

/// Any failure a packet operation can raise.
#[derive(Clone, Copy, Debug)]
pub enum PacketError {
    /// A buffer access failed; carried unchanged from the buffer layer.
    Buffer(BufferError),
    /// The bytes do not form the requested layer.
    Parse(ParseError),
    /// A segment list update was rejected.
    BadSegments(BadSegmentsError),
}

} // verus!
