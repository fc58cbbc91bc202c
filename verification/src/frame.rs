//! Length-prefixed frames over a byte stream.
//!
//! On the wire a frame is `length (4 bytes, big-endian) || payload`.  A
//! reader never looks at payload bytes before the whole declared length has
//! arrived: `try_parse_frame` returns nothing until the buffer holds the
//! prefix and that many payload bytes.

use vstd::prelude::*;

verus! {

/// The four big-endian bytes of a 32-bit length.
pub open spec fn be32(n: u32) -> Seq<u8> {
    seq![(n >> 24) as u8, (n >> 16) as u8, (n >> 8) as u8, n as u8]
}

/// The 32-bit value read back from four big-endian bytes.
pub open spec fn be32_value(b0: u8, b1: u8, b2: u8, b3: u8) -> u32 {
    ((b0 as u32) << 24) | ((b1 as u32) << 16) | ((b2 as u32) << 8) | (b3 as u32)
}

/// What a payload looks like on the wire.
pub open spec fn frame_spec(payload: Seq<u8>) -> Seq<u8>
    recommends
        payload.len() <= u32::MAX,
{
    be32(payload.len() as u32) + payload
}

/// The first frame held complete in `buf`, with the count of bytes it
/// occupies, or nothing while the buffer is still too short.
pub open spec fn parse_frame_spec(buf: Seq<u8>) -> Option<(Seq<u8>, int)> {
    if buf.len() < 4 {
        None
    } else {
        let n = be32_value(buf[0], buf[1], buf[2], buf[3]) as int;
        if buf.len() >= 4 + n {
            Some((buf.subrange(4, 4 + n), 4 + n))
        } else {
            None
        }
    }
}

/// Reading four big-endian bytes undoes writing them.
pub proof fn lemma_be32_round_trip(n: u32)
    ensures
        be32(n).len() == 4,
        be32_value((n >> 24) as u8, (n >> 16) as u8, (n >> 8) as u8, n as u8) == n,
{
    assert((((n >> 24) as u8) as u32) << 24 | (((n >> 16) as u8) as u32) << 16 | (((n >> 8) as u8)
        as u32) << 8 | ((n as u8) as u32) == n) by (bit_vector);
}

/// Frame fidelity: a written frame, however many bytes follow it, reads
/// back as exactly the payload it was built from, consuming exactly the
/// frame's own bytes.
pub proof fn lemma_frame_round_trip(payload: Seq<u8>, rest: Seq<u8>)
    requires
        payload.len() <= u32::MAX,
    ensures
        parse_frame_spec(frame_spec(payload) + rest) == Some(
            (payload, 4 + payload.len() as int),
        ),
{
    let n = payload.len() as u32;
    let buf = frame_spec(payload) + rest;
    lemma_be32_round_trip(n);
    assert(buf.len() == 4 + payload.len() + rest.len());
    assert(buf[0] == (n >> 24) as u8 && buf[1] == (n >> 16) as u8 && buf[2] == (n >> 8) as u8
        && buf[3] == n as u8);
    assert(be32_value(buf[0], buf[1], buf[2], buf[3]) == n);
    assert(buf.subrange(4, 4 + n as int) =~= payload);
}

/// The value of a frame's four-byte big-endian length prefix.
pub fn u32_from_be4(b0: u8, b1: u8, b2: u8, b3: u8) -> (n: u32)
    ensures
        n == be32_value(b0, b1, b2, b3),
{
    ((b0 as u32) << 24) | ((b1 as u32) << 16) | ((b2 as u32) << 8) | (b3 as u32)
}

/// A payload framed for the wire: its big-endian length, then its bytes.
pub fn encode_frame(payload: &Vec<u8>) -> (frame: Vec<u8>)
    requires
        payload@.len() <= u32::MAX,
    ensures
        frame@ == frame_spec(payload@),
        frame@.len() == 4 + payload@.len(),
{
    let n = payload.len() as u32;
    let mut frame: Vec<u8> = Vec::new();
    frame.push((n >> 24) as u8);
    frame.push((n >> 16) as u8);
    frame.push((n >> 8) as u8);
    frame.push(n as u8);
    frame.extend_from_slice(payload.as_slice());
    assert(frame@ =~= frame_spec(payload@));
    frame
}

/// The first complete frame in `buf`, as its payload and the count of bytes
/// consumed, or nothing while `buf` is still too short for the declared
/// length.
pub fn try_parse_frame(buf: &Vec<u8>) -> (r: Option<(Vec<u8>, usize)>)
    ensures
        (match r {
            Some(pc) => parse_frame_spec(buf@) == Some((pc.0@, pc.1 as int)),
            None => parse_frame_spec(buf@) is None,
        }),
{
    if buf.len() < 4 {
        return None;
    }
    let n = u32_from_be4(buf[0], buf[1], buf[2], buf[3]);
    let remaining = buf.len() - 4;
    if (n as usize) > remaining {
        return None;
    }
    let len = n as usize;
    let mut payload: Vec<u8> = Vec::new();
    let mut i: usize = 0;
    while i < len
        invariant
            i <= len,
            len <= usize::MAX - 4,
            len + 4 <= buf@.len(),
            payload@ =~= buf@.subrange(4, 4 + i as int),
        decreases len - i,
    {
        payload.push(buf[4 + i]);
        i = i + 1;
    }
    assert(payload@ =~= buf@.subrange(4, 4 + len as int));
    Some((payload, 4 + len))
}

} // verus!
