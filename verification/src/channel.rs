//! An in-memory framed channel: a loopback byte stream for exercising and
//! reasoning about the framing without any transport underneath.

use vstd::prelude::*;

use crate::frame::{be_to_u32, declared_len, encode_frame, frame_complete, frame_of, frame_payload,
    frame_size, header_truncated, payload_truncated, FrameError};
use crate::DynamicTcpStream;

verus! {

/// Whether the bytes announce a payload beyond an accepted maximum: a header
/// has arrived whole and declares more than `limit` allows.
pub open spec fn announced_over_limit(b: Seq<u8>, limit: Option<u32>) -> bool {
    b.len() >= 4 && limit is Some && declared_len(b) > limit->0
}

/// A loopback stream: every byte written to it queues up, in order, to be
/// read back from the same stream.  The buffer keeps everything ever
/// written — the wire log — and a cursor marks how far reading has come.
/// An optional ceiling guards the read path against inflated length fields.
pub struct MemoryStream {
    data: Vec<u8>,
    pos: usize,
    max_len: Option<u32>,
}

impl MemoryStream {
    /// The read cursor never passes the end of the wire log.
    #[verifier::type_invariant]
    spec fn cursor_in_bounds(self) -> bool {
        self.pos <= self.data@.len()
    }

    /// The configured maximum accepted payload length, if any.
    pub closed spec fn max_message_len(&self) -> Option<u32> {
        self.max_len
    }

    /// A fresh stream: nothing written, nothing to read, no read ceiling.
    pub fn new() -> (s: MemoryStream)
        ensures
            s.inbound() == Seq::<u8>::empty(),
            s.outbound() == Seq::<u8>::empty(),
            s.max_message_len() == None::<u32>,
    {
        let s = MemoryStream { data: Vec::new(), pos: 0, max_len: None };
        proof {
            assert(s.inbound() =~= Seq::<u8>::empty());
        }
        s
    }

    /// A stream whose readable side already holds `bytes`, as if a peer had
    /// sent exactly those raw bytes.
    pub fn from_bytes(bytes: Vec<u8>) -> (s: MemoryStream)
        ensures
            s.inbound() == bytes@,
            s.outbound() == bytes@,
            s.max_message_len() == None::<u32>,
    {
        let s = MemoryStream { data: bytes, pos: 0, max_len: None };
        proof {
            assert(s.inbound() =~= s.data@);
        }
        s
    }

    /// Caps how long an announced payload may be before the read path
    /// refuses it, so a hostile peer cannot demand an unbounded allocation.
    pub fn set_max_message_len(&mut self, max: u32)
        ensures
            final(self).max_message_len() == Some(max),
            final(self).inbound() == old(self).inbound(),
            final(self).outbound() == old(self).outbound(),
    {
        proof {
            use_type_invariant(&*self);
        }
        self.max_len = Some(max);
    }

    /// A copy of the whole wire log: every byte written so far, as framed.
    pub fn wire_bytes(&self) -> (b: Vec<u8>)
        ensures
            b@ == self.outbound(),
    {
        let mut b: Vec<u8> = Vec::new();
        let mut i: usize = 0;
        while i < self.data.len()
            invariant
                i <= self.data@.len(),
                b@ == self.data@.take(i as int),
            decreases self.data@.len() - i,
        {
            b.push(self.data[i]);
            proof {
                assert(b@ =~= self.data@.take(i + 1));
            }
            i = i + 1;
        }
        proof {
            assert(self.data@.take(self.data@.len() as int) =~= self.data@);
        }
        b
    }

    /// Reads one whole message off the stream, or reports exactly how the
    /// stream fell short: inside the header, inside the payload, or a header
    /// announcing more than the configured ceiling accepts.  On an error
    /// nothing is consumed.
    pub fn read_message(&mut self) -> (r: Result<Vec<u8>, FrameError>)
        ensures
            frame_complete(old(self).inbound()) && !announced_over_limit(
                old(self).inbound(),
                old(self).max_message_len(),
            ) ==> r is Ok && r->Ok_0@ == frame_payload(old(self).inbound())
                && final(self).inbound() == old(self).inbound().skip(
                frame_size(old(self).inbound())),
            header_truncated(old(self).inbound()) ==> r == Err::<Vec<u8>, FrameError>(
                FrameError::TruncatedHeader,
            ),
            announced_over_limit(old(self).inbound(), old(self).max_message_len()) ==> r == Err::<
                Vec<u8>,
                FrameError,
            >(FrameError::TooLarge),
            payload_truncated(old(self).inbound()) && !announced_over_limit(
                old(self).inbound(),
                old(self).max_message_len(),
            ) ==> r == Err::<Vec<u8>, FrameError>(FrameError::TruncatedPayload),
            r is Err ==> final(self).inbound() == old(self).inbound(),
            final(self).outbound() == old(self).outbound(),
            final(self).max_message_len() == old(self).max_message_len(),
    {
        proof {
            use_type_invariant(&*self);
        }
        let p: usize = self.pos;
        let avail: usize = self.data.len() - p;
        if avail < 4 {
            return Err(FrameError::TruncatedHeader);
        }
        let b0: u8 = self.data[p];
        let b1: u8 = self.data[p + 1];
        let b2: u8 = self.data[p + 2];
        let b3: u8 = self.data[p + 3];
        let len32: u32 = be_to_u32(b0, b1, b2, b3);
        proof {
            assert(seq![b0, b1, b2, b3] =~= self.inbound().subrange(0, 4));
        }
        if let Some(max) = self.max_len {
            if len32 > max {
                return Err(FrameError::TooLarge);
            }
        }
        let len: usize = len32 as usize;
        if avail - 4 < len {
            return Err(FrameError::TruncatedPayload);
        }
        let mut payload: Vec<u8> = Vec::new();
        let mut i: usize = 0;
        while i < len
            invariant
                i <= len,
                p + 4 + len <= self.data@.len(),
                self.data@.len() <= usize::MAX,
                payload@ == self.data@.subrange(p + 4, p + 4 + i),
            decreases len - i,
        {
            payload.push(self.data[p + 4 + i]);
            proof {
                assert(payload@ =~= self.data@.subrange(p + 4, p + 4 + (i + 1)));
            }
            i = i + 1;
        }
        self.pos = p + 4 + len;
        proof {
            assert(old(self).inbound().subrange(4, 4 + declared_len(old(self).inbound())) =~= self
                .data@.subrange(p + 4, p + 4 + len));
            assert(self.inbound() =~= old(self).inbound().skip(4 + declared_len(
                old(self).inbound(),
            )));
        }
        Ok(payload)
    }

    /// Writes one whole message onto the stream: the 4-byte big-endian
    /// length prefix, then the payload.  A message too long for the prefix
    /// is refused before a single byte goes out.
    pub fn write_message(&mut self, msg: &[u8]) -> (r: Result<(), FrameError>)
        ensures
            msg@.len() <= u32::MAX ==> r is Ok
                && final(self).inbound() == old(self).inbound() + frame_of(msg@)
                && final(self).outbound() == old(self).outbound() + frame_of(msg@),
            msg@.len() > u32::MAX ==> r == Err::<(), FrameError>(FrameError::Oversized)
                && final(self).inbound() == old(self).inbound()
                && final(self).outbound() == old(self).outbound(),
            final(self).max_message_len() == old(self).max_message_len(),
    {
        proof {
            use_type_invariant(&*self);
        }
        match encode_frame(msg) {
            Ok(mut fr) => {
                // The buffer steps out of the struct while it grows, so the
                // cursor bound holds at every intermediate point.
                let p: usize = self.pos;
                self.pos = 0;
                let mut buf: Vec<u8> = Vec::new();
                core::mem::swap(&mut self.data, &mut buf);
                buf.append(&mut fr);
                core::mem::swap(&mut self.data, &mut buf);
                self.pos = p;
                proof {
                    assert(self.inbound() =~= old(self).inbound() + frame_of(msg@));
                }
                Ok(())
            },
            Err(e) => Err(e),
        }
    }
}

impl DynamicTcpStream for MemoryStream {
    type Err = FrameError;

    /// The bytes written but not yet read back: the tail of the wire log
    /// past the read cursor.
    closed spec fn inbound(&self) -> Seq<u8> {
        self.data@.skip(self.pos as int)
    }

    /// The whole wire log.
    closed spec fn outbound(&self) -> Seq<u8> {
        self.data@
    }

    fn read_entire_message(&mut self) -> (r: Result<Vec<u8>, FrameError>) {
        self.read_message()
    }

    fn write_entire_message(&mut self, msg: &[u8]) -> (r: Result<(), FrameError>) {
        self.write_message(msg)
    }
}

} // verus!
