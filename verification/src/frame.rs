//! The wire format: a 4-byte big-endian length prefix, then the payload.

use vstd::prelude::*;

verus! {

/// Why a framed read or write could not complete.
#[derive(Clone, Copy, PartialEq, Eq, Debug)]
pub enum FrameError {
    /// The stream ended before the four header bytes arrived.
    TruncatedHeader,
    /// The stream ended before the announced payload arrived.
    TruncatedPayload,
    /// The message is longer than a 32-bit length prefix can describe.
    Oversized,
    /// The header announces a payload beyond the reader's accepted maximum.
    TooLarge,
}

/// The four big-endian bytes that spell a 32-bit length.
pub open spec fn len_bytes(n: u32) -> Seq<u8> {
    seq![
        (n / 0x1000000) as u8,
        ((n / 0x10000) % 0x100) as u8,
        ((n / 0x100) % 0x100) as u8,
        (n % 0x100) as u8,
    ]
}

/// The length spelled by four big-endian bytes.
pub open spec fn be_u32(b: Seq<u8>) -> int
    recommends
        b.len() == 4,
{
    0x1000000 * (b[0] as int) + 0x10000 * (b[1] as int) + 0x100 * (b[2] as int) + (b[3] as int)
}

/// The wire form of one message: its length prefix, then its payload.
pub open spec fn frame_of(m: Seq<u8>) -> Seq<u8>
    recommends
        m.len() <= u32::MAX,
{
    len_bytes(m.len() as u32) + m
}

/// The bytes end inside the 4-byte header.
pub open spec fn header_truncated(b: Seq<u8>) -> bool {
    b.len() < 4
}

/// The payload length announced by the header.
pub open spec fn declared_len(b: Seq<u8>) -> int
    recommends
        b.len() >= 4,
{
    be_u32(b.subrange(0, 4))
}

/// The bytes end after the header but inside the announced payload.
pub open spec fn payload_truncated(b: Seq<u8>) -> bool {
    b.len() >= 4 && b.len() < 4 + declared_len(b)
}

/// The bytes begin with one complete frame.
pub open spec fn frame_complete(b: Seq<u8>) -> bool {
    b.len() >= 4 && b.len() >= 4 + declared_len(b)
}

/// How many bytes the leading frame occupies: header plus payload.
pub open spec fn frame_size(b: Seq<u8>) -> int
    recommends
        b.len() >= 4,
{
    4 + declared_len(b)
}

/// The payload carried by the leading frame.
pub open spec fn frame_payload(b: Seq<u8>) -> Seq<u8>
    recommends
        frame_complete(b),
{
    b.subrange(4, 4 + declared_len(b))
}

/// Decodes four big-endian header bytes into the length they spell.
pub fn be_to_u32(b0: u8, b1: u8, b2: u8, b3: u8) -> (n: u32)
    ensures
        n == be_u32(seq![b0, b1, b2, b3]),
{
    (b0 as u32) * 0x1000000 + (b1 as u32) * 0x10000 + (b2 as u32) * 0x100 + (b3 as u32)
}

/// Encodes a 32-bit length as its four big-endian bytes.
pub fn be_bytes(n: u32) -> (b: Vec<u8>)
    ensures
        b@ == len_bytes(n),
{
    let mut b: Vec<u8> = Vec::new();
    b.push((n / 0x1000000) as u8);
    b.push(((n / 0x10000) % 0x100) as u8);
    b.push(((n / 0x100) % 0x100) as u8);
    b.push((n % 0x100) as u8);
    proof {
        assert(b@ =~= len_bytes(n));
    }
    b
}

/// A length survives the trip through its big-endian bytes.
pub proof fn lemma_be_round_trip(n: u32)
    ensures
        be_u32(len_bytes(n)) == n,
{
    assert(n / 0x1000000 < 0x100) by (bit_vector);
    assert(0x1000000 * (n / 0x1000000) + 0x10000 * ((n / 0x10000) % 0x100) + 0x100 * ((n
        / 0x100) % 0x100) + n % 0x100 == n) by (bit_vector);
}

/// The header of a written frame decodes to the payload's exact length.
pub proof fn lemma_length_prefix(m: Seq<u8>)
    requires
        m.len() <= u32::MAX,
    ensures
        frame_of(m).len() == 4 + m.len(),
        be_u32(frame_of(m).subrange(0, 4)) == m.len(),
{
    lemma_be_round_trip(m.len() as u32);
    assert(frame_of(m).subrange(0, 4) =~= len_bytes(m.len() as u32));
}

/// A frame written for `m`, followed by any trailing bytes, begins with one
/// complete frame whose payload is exactly `m`; consuming it leaves precisely
/// the trailing bytes.
pub proof fn lemma_frame_round_trip(m: Seq<u8>, rest: Seq<u8>)
    requires
        m.len() <= u32::MAX,
    ensures
        frame_complete(frame_of(m) + rest),
        frame_size(frame_of(m) + rest) == 4 + m.len(),
        frame_payload(frame_of(m) + rest) == m,
        (frame_of(m) + rest).skip(frame_size(frame_of(m) + rest)) == rest,
{
    let w = frame_of(m) + rest;
    lemma_be_round_trip(m.len() as u32);
    assert(w.subrange(0, 4) =~= len_bytes(m.len() as u32));
    assert(declared_len(w) == m.len());
    assert(frame_payload(w) =~= m);
    assert(w.skip(4 + m.len() as int) =~= rest);
}

/// Three messages framed back to back on one stream read back as the same
/// three messages, in order, with no bytes lost or gained between frames.
pub proof fn lemma_sequential_frames(m1: Seq<u8>, m2: Seq<u8>, m3: Seq<u8>)
    requires
        m1.len() <= u32::MAX,
        m2.len() <= u32::MAX,
        m3.len() <= u32::MAX,
    ensures
        frame_complete(frame_of(m1) + frame_of(m2) + frame_of(m3)),
        frame_payload(frame_of(m1) + frame_of(m2) + frame_of(m3)) == m1,
        (frame_of(m1) + frame_of(m2) + frame_of(m3)).skip(
            frame_size(frame_of(m1) + frame_of(m2) + frame_of(m3)),
        ) == frame_of(m2) + frame_of(m3),
        frame_complete(frame_of(m2) + frame_of(m3)),
        frame_payload(frame_of(m2) + frame_of(m3)) == m2,
        (frame_of(m2) + frame_of(m3)).skip(frame_size(frame_of(m2) + frame_of(m3))) == frame_of(
            m3,
        ),
        frame_complete(frame_of(m3)),
        frame_payload(frame_of(m3)) == m3,
        frame_of(m3).skip(frame_size(frame_of(m3))) == Seq::<u8>::empty(),
{
    assert(frame_of(m1) + frame_of(m2) + frame_of(m3) =~= frame_of(m1) + (frame_of(m2) + frame_of(
        m3,
    )));
    lemma_frame_round_trip(m1, frame_of(m2) + frame_of(m3));
    lemma_frame_round_trip(m2, frame_of(m3));
    lemma_frame_round_trip(m3, Seq::<u8>::empty());
    assert(frame_of(m3) + Seq::<u8>::empty() =~= frame_of(m3));
}

/// Builds the wire form of `msg`: the 4-byte big-endian length prefix, then
/// the payload.  A message too long for a 32-bit prefix is refused whole, so
/// nothing of it ever reaches the wire.
pub fn encode_frame(msg: &[u8]) -> (r: Result<Vec<u8>, FrameError>)
    ensures
        msg@.len() <= u32::MAX ==> r is Ok && r->Ok_0@ == frame_of(msg@),
        msg@.len() > u32::MAX ==> r == Err::<Vec<u8>, FrameError>(FrameError::Oversized),
{
    if msg.len() > u32::MAX as usize {
        return Err(FrameError::Oversized);
    }
    let n: u32 = msg.len() as u32;
    let mut out: Vec<u8> = be_bytes(n);
    let mut i: usize = 0;
    while i < msg.len()
        invariant
            i <= msg@.len(),
            msg@.len() <= u32::MAX,
            n == msg@.len(),
            out@ == len_bytes(n) + msg@.take(i as int),
        decreases msg@.len() - i,
    {
        out.push(msg[i]);
        proof {
            assert(out@ =~= len_bytes(n) + msg@.take(i + 1));
        }
        i = i + 1;
    }
    proof {
        assert(msg@.take(msg@.len() as int) =~= msg@);
    }
    Ok(out)
}

} // verus!
