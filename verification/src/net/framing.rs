//! Length-prefixed framing of encoded messages: a little-endian `u32` byte
//! count, then the bytes.
use vstd::bytes::{
    lemma_auto_spec_u32_to_from_le_bytes, spec_u32_from_le_bytes, spec_u32_to_le_bytes,
    u32_from_le_bytes, u32_to_le_bytes,
};
use vstd::prelude::*;
use vstd::slice::slice_subrange;
use vstd::string::StringExecFns;

verus! {

/// Why a frame could not be read.
#[derive(Debug, Clone, Copy, PartialEq, Eq, Structural)]
pub enum FrameError {
    /// Fewer than four bytes: no room for the length prefix.
    TooSmallForPrefix,
    /// Fewer bytes after the prefix than it announces.
    TooSmallForMessage,
}

impl FrameError {
    /// The human-readable message for this failure.
    pub fn message(&self) -> (s: String)
        ensures
            s@ == match self {
                FrameError::TooSmallForPrefix => "Buffer too small for length prefix"@,
                FrameError::TooSmallForMessage => "Buffer too small for message"@,
            },
    {
        match self {
            FrameError::TooSmallForPrefix => String::from_str("Buffer too small for length prefix"),
            FrameError::TooSmallForMessage => String::from_str("Buffer too small for message"),
        }
    }
}

/// The frame of `data`; its length is cut to 32 bits in the prefix.
pub open spec fn frame(data: Seq<u8>) -> Seq<u8> {
    spec_u32_to_le_bytes(data.len() as u32) + data
}

/// What reading a frame from the front of `b` gives: the message bytes, or
/// why there are too few.
pub open spec fn unframe(b: Seq<u8>) -> Result<Seq<u8>, FrameError> {
    if b.len() < 4 {
        Err(FrameError::TooSmallForPrefix)
    } else {
        let n = spec_u32_from_le_bytes(b.subrange(0, 4)) as int;
        if b.len() < 4 + n {
            Err(FrameError::TooSmallForMessage)
        } else {
            Ok(b.subrange(4, 4 + n))
        }
    }
}

/// Frames `data`: its length as a little-endian `u32`, then the bytes.
pub fn frame_with_length(data: &[u8]) -> (r: Vec<u8>)
    ensures
        r@ == frame(data@),
{
    let mut result = u32_to_le_bytes(#[verifier::truncate] (data.len() as u32));
    result.extend_from_slice(data);
    result
}

/// Reads the frame at the front of `bytes`: the message it holds. Bytes past
/// the frame are ignored.
pub fn unframe_with_length(bytes: &[u8]) -> (r: Result<&[u8], FrameError>)
    ensures
        match unframe(bytes@) {
            Ok(m) => r matches Ok(s) && s@ == m,
            Err(e) => r == Err::<&[u8], FrameError>(e),
        },
{
    if bytes.len() < 4 {
        return Err(FrameError::TooSmallForPrefix);
    }
    let prefix = slice_subrange(bytes, 0, 4);
    let len = u32_from_le_bytes(prefix) as usize;
    if bytes.len() - 4 < len {
        return Err(FrameError::TooSmallForMessage);
    }
    Ok(slice_subrange(bytes, 4, 4 + len))
}

/// A frame reads back as the data framed, whatever follows it, for data
/// whose length fits the prefix.
pub proof fn lemma_frame_round_trip(data: Seq<u8>, rest: Seq<u8>)
    requires
        data.len() <= u32::MAX,
    ensures
        unframe(frame(data) + rest) == Ok::<Seq<u8>, FrameError>(data),
{
    lemma_auto_spec_u32_to_from_le_bytes();
    let b = frame(data) + rest;
    assert(b.subrange(0, 4) =~= spec_u32_to_le_bytes(data.len() as u32));
    assert(b.subrange(4, 4 + data.len() as int) =~= data);
}

} // verus!
