//! The frame around a container that went through the whole-file
//! compressor: an 8-byte magic, the uncompressed length as 8 little-endian
//! bytes, then the compressor's output.
//!
//! The compressor itself is not part of this library. `begin_frame` makes
//! the buffer that it fills behind the 16-byte header, and `finish_frame`
//! cuts the buffer to what the compressor reported.

use crate::error::ConvertError;
use crate::le::{le_bytes, lemma_le_bytes_len, put_le};
use vstd::prelude::*;

verus! {

/// Length of the frame header.
pub const FRAME_HEADER_LEN: usize = 16;

/// The magic that opens a frame: the ASCII letters `DIVINITY`.
pub open spec fn frame_magic() -> Seq<u8> {
    seq![0x44u8, 0x49u8, 0x56u8, 0x49u8, 0x4Eu8, 0x49u8, 0x54u8, 0x59u8]
}

/// The most bytes that the compressor writes for `len` bytes of input: the
/// input plus 274 bytes for every started chunk of 0x40000 bytes.
pub open spec fn spec_compress_bound(len: nat) -> nat {
    len + 274 * ((len + 0x3FFFF) / 0x40000)
}

/// The frame header for `len` uncompressed bytes.
pub open spec fn spec_frame_header(len: nat) -> Seq<u8> {
    frame_magic() + le_bytes(len, 8)
}

/// The buffer handed to the compressor: the header, then room for
/// `spec_compress_bound(len)` bytes, zeroed.
pub open spec fn spec_begin_frame(len: nat) -> Seq<u8> {
    spec_frame_header(len) + Seq::new(spec_compress_bound(len), |i: int| 0u8)
}

/// The inputs that can be framed: the compressor reports sizes as signed
/// 32-bit numbers, so the bound has to be one.
pub open spec fn frameable(len: nat) -> bool {
    spec_compress_bound(len) <= i32::MAX
}

/// What `finish_frame` returns: `CodecFailure` for a report that is not
/// positive, else the frame cut behind the reported bytes.
pub open spec fn spec_finish_frame(frame: Seq<u8>, reported: int) -> Result<Seq<u8>, ConvertError> {
    if reported <= 0 {
        Err(ConvertError::CodecFailure)
    } else if reported + 16 <= frame.len() {
        Ok(frame.subrange(0, reported + 16))
    } else {
        Ok(frame)
    }
}

/// The most bytes that the compressor writes for `len` bytes of input, or
/// `None` where that is more than it can report.
pub fn compress_bound(len: usize) -> (bound: Option<usize>)
    ensures
        match bound {
            Some(bound) => frameable(len as nat) && bound == spec_compress_bound(len as nat),
            None => !frameable(len as nat),
        },
{
    if len > 0x7FFF_FFFF {
        return None;
    }
    let chunks: usize = (len + 0x3FFFF) / 0x40000;
    let bound: usize = len + 274 * chunks;
    if bound > 0x7FFF_FFFF {
        None
    } else {
        Some(bound)
    }
}

/// Makes the buffer for compressing `len` bytes: the frame header followed
/// by zeroed room for the compressor's output. `CodecFailure` where `len`
/// is more than the compressor can take.
pub fn begin_frame(len: usize) -> (outcome: Result<Vec<u8>, ConvertError>)
    ensures
        match outcome {
            Ok(frame) => frameable(len as nat) && frame@ == spec_begin_frame(len as nat),
            Err(error) => !frameable(len as nat) && error == ConvertError::CodecFailure,
        },
{
    let bound: usize = match compress_bound(len) {
        Some(bound) => bound,
        None => {
            return Err(ConvertError::CodecFailure);
        },
    };
    let mut header = [0u8; 16];
    header[0] = 0x44;
    header[1] = 0x49;
    header[2] = 0x56;
    header[3] = 0x49;
    header[4] = 0x4E;
    header[5] = 0x49;
    header[6] = 0x54;
    header[7] = 0x59;
    put_le(&mut header, 8, len as u64, 8);
    proof {
        lemma_le_bytes_len(len as nat, 8);
        assert(header@ =~= spec_frame_header(len as nat));
    }
    let mut frame: Vec<u8> = vec![0u8; bound + FRAME_HEADER_LEN];
    let mut i: usize = 0;
    while i < 16
        invariant
            i <= 16,
            frame@.len() == bound + 16,
            header@ == spec_frame_header(len as nat),
            header@.len() == 16,
            forall|k: int| 0 <= k < i ==> frame@[k] == header@[k],
            forall|k: int| i <= k < frame@.len() ==> frame@[k] == 0u8,
        decreases 16 - i,
    {
        frame[i] = header[i];
        i = i + 1;
    }
    proof {
        assert(frame@ =~= spec_begin_frame(len as nat));
    }
    Ok(frame)
}

/// Cuts a frame that the compressor has filled to the header plus the
/// `reported` bytes. A report that is not positive is a `CodecFailure`.
pub fn finish_frame(frame: Vec<u8>, reported: i32) -> (outcome: Result<Vec<u8>, ConvertError>)
    ensures
        match outcome {
            Ok(cut) => spec_finish_frame(frame@, reported as int) == Ok::<Seq<u8>, ConvertError>(
                cut@,
            ),
            Err(error) => spec_finish_frame(frame@, reported as int) == Err::<
                Seq<u8>,
                ConvertError,
            >(error),
        },
{
    if reported <= 0 {
        return Err(ConvertError::CodecFailure);
    }
    let mut frame = frame;
    let keep: u64 = reported as u64 + 16;
    if keep <= frame.len() as u64 {
        frame.truncate(keep as usize);
    }
    Ok(frame)
}

} // verus!
