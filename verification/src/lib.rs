//! Length-prefixed message framing over a duplex byte stream.
//!
//! Every message crosses the wire as a 4-byte big-endian length prefix
//! followed by exactly that many payload bytes.  The crate proves that the
//! two directions agree: whatever one side frames, the other side reads back
//! unchanged, and every way a stream can end short of a whole frame is
//! reported as a distinct error rather than a short read.

use vstd::prelude::*;

pub mod channel;
pub mod frame;

use crate::frame::{frame_complete, frame_of, frame_payload, frame_size, header_truncated,
    payload_truncated};

verus! {

/// A duplex byte stream carrying length-prefixed messages.
///
/// An implementor models its two directions as ghost byte sequences:
/// `inbound` is what waits to be read, `outbound` is what has been written so
/// far.  The two operations move whole frames only: a successful read
/// consumes exactly one complete frame from `inbound` and hands back its
/// payload; a successful write appends exactly one frame for the given
/// message to `outbound`.  A stream that ends inside a frame, or a message
/// too long for the 32-bit prefix, must produce an error, never a short
/// read or a silently wrapped length.
pub trait DynamicTcpStream {
    type Err;

    /// The bytes waiting to be read from the stream.  An implementation
    /// verified against this trait overrides the default with its real model.
    open spec fn inbound(&self) -> Seq<u8> {
        Seq::<u8>::empty()
    }

    /// The bytes written onto the stream so far.  An implementation verified
    /// against this trait overrides the default with its real model.
    open spec fn outbound(&self) -> Seq<u8> {
        Seq::<u8>::empty()
    }

    /// Reads one whole message: four header bytes, then exactly the payload
    /// the header announces.
    fn read_entire_message(&mut self) -> (r: Result<Vec<u8>, Self::Err>)
        ensures
            r is Ok ==> frame_complete(old(self).inbound())
                && r->Ok_0@ == frame_payload(old(self).inbound())
                && final(self).inbound() == old(self).inbound().skip(
                frame_size(old(self).inbound()))
                && final(self).outbound() == old(self).outbound(),
            header_truncated(old(self).inbound()) ==> r is Err,
            payload_truncated(old(self).inbound()) ==> r is Err,
    ;

    /// Writes one whole message: its length as four big-endian bytes, then
    /// the message itself.
    fn write_entire_message(&mut self, msg: &[u8]) -> (r: Result<(), Self::Err>)
        ensures
            r is Ok ==> msg@.len() <= u32::MAX
                && final(self).outbound() == old(self).outbound() + frame_of(msg@),
            msg@.len() > u32::MAX ==> r is Err && final(self).outbound() == old(self).outbound(),
    ;
}

} // verus!
