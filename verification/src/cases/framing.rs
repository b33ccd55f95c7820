//! Length-prefixed framing for a small binary protocol.
//!
//! A frame is `HEADER_BYTES` of header followed by the payload. The header
//! carries the payload length as a big-endian `u32`, then four reserved bytes.

use vstd::prelude::*;

verus! {

/// Size of the fixed header that precedes every payload.
pub const HEADER_BYTES: usize = 8;

/// The transport refuses to carry a frame larger than this, in either
/// direction.
pub const MAX_FRAME_BYTES: usize = 4096;

/// The largest payload that still fits inside `MAX_FRAME_BYTES` once the
/// header is accounted for.
pub const MAX_PAYLOAD_BYTES: usize = 4088;

#[derive(Debug, PartialEq, Eq)]
pub enum FrameError {
    /// The caller offered more payload than a frame can carry.
    PayloadTooLarge { len: usize, limit: usize },
    /// The peer sent a frame the transport will not carry.
    FrameTooLarge { len: usize },
    /// The frame ended before the header or the declared payload did.
    Truncated,
}

/// The four big-endian bytes of `n`.
pub open spec fn be_bytes(n: u32) -> Seq<u8> {
    seq![(n >> 24u32) as u8, ((n >> 16u32) & 0xff) as u8, ((n >> 8u32) & 0xff) as u8, (n & 0xff) as u8]
}

/// The `u32` four big-endian bytes spell.
pub open spec fn be_value(b0: u8, b1: u8, b2: u8, b3: u8) -> u32 {
    ((b0 as u32) << 24u32) | ((b1 as u32) << 16u32) | ((b2 as u32) << 8u32) | (b3 as u32)
}

/// The frame that carries `payload`.
pub open spec fn frame_of(payload: Seq<u8>) -> Seq<u8> {
    be_bytes(payload.len() as u32) + seq![0u8, 0u8, 0u8, 0u8] + payload
}

/// What `decode` makes of `frame`.
pub open spec fn decoded(frame: Seq<u8>) -> Result<Seq<u8>, FrameError> {
    if frame.len() > MAX_FRAME_BYTES {
        Err(FrameError::FrameTooLarge { len: frame.len() as usize })
    } else if frame.len() < HEADER_BYTES {
        Err(FrameError::Truncated)
    } else {
        let len = be_value(frame[0], frame[1], frame[2], frame[3]) as int;
        if HEADER_BYTES + len > frame.len() {
            Err(FrameError::Truncated)
        } else {
            Ok(frame.subrange(HEADER_BYTES as int, HEADER_BYTES + len))
        }
    }
}

proof fn lemma_be_round_trip(n: u32)
    ensures
        be_value(be_bytes(n)[0], be_bytes(n)[1], be_bytes(n)[2], be_bytes(n)[3]) == n,
{
    let b0 = (n >> 24u32) as u8;
    let b1 = ((n >> 16u32) & 0xff) as u8;
    let b2 = ((n >> 8u32) & 0xff) as u8;
    let b3 = (n & 0xff) as u8;
    assert(((b0 as u32) << 24u32) | ((b1 as u32) << 16u32) | ((b2 as u32) << 8u32) | (b3 as u32)
        == n) by (bit_vector)
        requires
            b0 == (n >> 24u32) as u8,
            b1 == ((n >> 16u32) & 0xff) as u8,
            b2 == ((n >> 8u32) & 0xff) as u8,
            b3 == (n & 0xff) as u8,
    ;
}

/// Encode `payload` into a single frame.
pub fn encode(payload: &[u8]) -> (r: Result<Vec<u8>, FrameError>)
    ensures
        payload@.len() > MAX_PAYLOAD_BYTES ==> r == Err::<Vec<u8>, FrameError>(
            FrameError::PayloadTooLarge { len: payload@.len() as usize, limit: MAX_PAYLOAD_BYTES },
        ),
        payload@.len() <= MAX_PAYLOAD_BYTES ==> r is Ok && r->Ok_0@ == frame_of(payload@),
{
    if payload.len() > MAX_PAYLOAD_BYTES {
        return Err(FrameError::PayloadTooLarge { len: payload.len(), limit: MAX_PAYLOAD_BYTES });
    }
    let n = payload.len() as u32;
    let mut out: Vec<u8> = Vec::with_capacity(HEADER_BYTES + payload.len());
    out.push((n >> 24u32) as u8);
    out.push(((n >> 16u32) & 0xff) as u8);
    out.push(((n >> 8u32) & 0xff) as u8);
    out.push((n & 0xff) as u8);
    out.push(0u8);
    out.push(0u8);
    out.push(0u8);
    out.push(0u8);
    let mut i: usize = 0;
    while i < payload.len()
        invariant
            i <= payload@.len(),
            n == payload@.len(),
            out@ == be_bytes(n) + seq![0u8, 0u8, 0u8, 0u8] + payload@.take(i as int),
        decreases payload@.len() - i,
    {
        out.push(payload[i]);
        i = i + 1;
        assert(payload@.take(i as int) =~= payload@.take(i - 1).push(payload@[i - 1]));
    }
    assert(payload@.take(i as int) =~= payload@);
    Ok(out)
}

/// Decode a frame back into its payload.
pub fn decode(frame: &[u8]) -> (r: Result<Vec<u8>, FrameError>)
    ensures
        match decoded(frame@) {
            Ok(p) => r is Ok && r->Ok_0@ == p,
            Err(e) => r == Err::<Vec<u8>, FrameError>(e),
        },
{
    if frame.len() > MAX_FRAME_BYTES {
        return Err(FrameError::FrameTooLarge { len: frame.len() });
    }
    if frame.len() < HEADER_BYTES {
        return Err(FrameError::Truncated);
    }
    let v = be_value_exec(frame[0], frame[1], frame[2], frame[3]);
    let len = v as usize;
    if len > frame.len() - HEADER_BYTES {
        return Err(FrameError::Truncated);
    }
    let end = HEADER_BYTES + len;
    let mut out: Vec<u8> = Vec::new();
    let mut i: usize = HEADER_BYTES;
    while i < end
        invariant
            end == HEADER_BYTES + len,
            HEADER_BYTES <= i <= end <= frame@.len(),
            out@ == frame@.subrange(HEADER_BYTES as int, i as int),
        decreases end - i,
    {
        out.push(frame[i]);
        i = i + 1;
        assert(frame@.subrange(HEADER_BYTES as int, i as int) =~= frame@.subrange(
            HEADER_BYTES as int,
            i - 1,
        ).push(frame@[i - 1]));
    }
    Ok(out)
}

fn be_value_exec(b0: u8, b1: u8, b2: u8, b3: u8) -> (v: u32)
    ensures
        v == be_value(b0, b1, b2, b3),
{
    ((b0 as u32) << 24u32) | ((b1 as u32) << 16u32) | ((b2 as u32) << 8u32) | (b3 as u32)
}

/// Every payload `encode` accepts comes back unchanged from `decode`, and
/// the frame it makes is one the transport will carry.
pub proof fn law_round_trip(payload: Seq<u8>)
    requires
        payload.len() <= MAX_PAYLOAD_BYTES,
    ensures
        frame_of(payload).len() <= MAX_FRAME_BYTES,
        decoded(frame_of(payload)) == Ok::<Seq<u8>, FrameError>(payload),
{
    let f = frame_of(payload);
    let n = payload.len() as u32;
    lemma_be_round_trip(n);
    assert(f[0] == be_bytes(n)[0]);
    assert(f[1] == be_bytes(n)[1]);
    assert(f[2] == be_bytes(n)[2]);
    assert(f[3] == be_bytes(n)[3]);
    assert(f.subrange(HEADER_BYTES as int, HEADER_BYTES + payload.len()) =~= payload);
}

} // verus!
