//! Frames with a four-byte header, the only way to obtain one, and the
//! readers of their fields.

use vstd::prelude::*;
use vstd::slice::{slice_subrange, slice_to_vec};

verus! {

/// Bytes of fixed header every frame carries: two for the kind, two for the
/// declared payload length.
pub const HEADER_LEN: usize = 4;

#[derive(Debug, PartialEq, Eq)]
pub enum FrameError {
    /// Fewer bytes than a header.
    Truncated,
}

/// A frame that has been through [`Frame::parse`].
///
/// `bytes` is private and `parse` is the only constructor, so every `Frame`
/// that exists has already been length-checked, and nothing mutates `bytes`
/// afterwards.
#[derive(Debug)]
pub struct Frame {
    bytes: Vec<u8>,
}

impl Frame {
    /// The frame as it arrived.
    pub closed spec fn content(&self) -> Seq<u8> {
        self.bytes@
    }

    #[verifier::type_invariant]
    spec fn has_header(&self) -> bool {
        self.bytes@.len() >= HEADER_LEN
    }

    /// Take a frame off the wire. Anything shorter than a header is refused.
    pub fn parse(bytes: &[u8]) -> (r: Result<Frame, FrameError>)
        ensures
            bytes@.len() < HEADER_LEN ==> r == Err::<Frame, FrameError>(FrameError::Truncated),
            bytes@.len() >= HEADER_LEN ==> r is Ok && r->Ok_0.content() == bytes@,
    {
        if bytes.len() < HEADER_LEN {
            return Err(FrameError::Truncated);
        }
        Ok(Frame { bytes: slice_to_vec(bytes) })
    }

    /// The frame as it arrived.
    pub fn bytes(&self) -> (b: &[u8])
        ensures
            b@ == self.content(),
            b@.len() >= HEADER_LEN,
    {
        proof {
            use_type_invariant(self);
        }
        self.bytes.as_slice()
    }

    /// Total size of the frame, header included.
    pub fn size(&self) -> (n: usize)
        ensures
            n == self.content().len(),
            n >= HEADER_LEN,
    {
        proof {
            use_type_invariant(self);
        }
        self.bytes.len()
    }
}

impl Clone for Frame {
    fn clone(&self) -> (f: Frame)
        ensures
            f.content() == self.content(),
    {
        proof {
            use_type_invariant(self);
        }
        Frame { bytes: slice_to_vec(self.bytes.as_slice()) }
    }
}

/// The big-endian `u16` two bytes spell.
pub open spec fn be16(hi: u8, lo: u8) -> u16 {
    ((hi as u16) * 256 + lo as u16) as u16
}

fn be16_exec(hi: u8, lo: u8) -> (v: u16)
    ensures
        v == be16(hi, lo),
{
    (hi as u16) * 256 + lo as u16
}

/// The frame's kind tag. Every frame has a header, so there always is one.
pub fn kind(frame: &Frame) -> (r: Option<u16>)
    ensures
        r == Some(be16(frame.content()[0], frame.content()[1])),
{
    let bytes = frame.bytes();
    if bytes.len() < HEADER_LEN {
        return None;
    }
    Some(be16_exec(bytes[0], bytes[1]))
}

/// The payload length the sender declared in the header.
pub fn declared_len(frame: &Frame) -> (r: Option<u16>)
    ensures
        r == Some(be16(frame.content()[2], frame.content()[3])),
{
    let bytes = frame.bytes();
    if bytes.len() < HEADER_LEN {
        return None;
    }
    Some(be16_exec(bytes[2], bytes[3]))
}

/// The bytes after the header.
pub fn payload(frame: &Frame) -> (p: &[u8])
    ensures
        p@ == frame.content().skip(HEADER_LEN as int),
{
    let bytes = frame.bytes();
    if bytes.len() < HEADER_LEN {
        return &[];
    }
    let p = slice_subrange(bytes, HEADER_LEN, bytes.len());
    assert(p@ =~= frame.content().skip(HEADER_LEN as int));
    p
}

/// Whether the frame carries as much payload as its header declares.
pub fn is_complete(frame: &Frame) -> (b: bool)
    ensures
        b == (frame.content().len() - HEADER_LEN >= be16(frame.content()[2], frame.content()[3])),
{
    proof {
        use_type_invariant(frame);
    }
    match declared_len(frame) {
        Some(declared) => payload(frame).len() >= declared as usize,
        None => false,
    }
}

} // verus!
