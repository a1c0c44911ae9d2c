//! The 2-bit frame-packing code of the TOC byte: how many frames a packet
//! carries and how their payload sizes are encoded.

use vstd::prelude::*;

use crate::frame_length;
use crate::frame_length::MAX_FRAME_LENGTH;
use crate::Error;

verus! {

/// How a packet's payload is divided into frames. Size fields count payload
/// bytes only, excluding the length bytes consumed to learn them.
#[derive(Clone, Copy, Debug, PartialEq, Eq, Structural)]
pub enum FramePacking {
    /// One frame of the given size.
    OneFrame(usize),
    /// Two frames of equal size; the field is their combined size, which
    /// must be even.
    TwoFramesEqualSize(usize),
    /// Two frames with explicit sizes: the first read from a length field,
    /// the second being all payload that remains.
    TwoFramesExplicitSizes(usize, usize),
    /// An arbitrary number of frames; an extension point this core does not
    /// interpret.
    Arbitrary,
}

/// What interpreting packing code `code` at offset `pos` of `buffer` yields:
/// the packing and the count of length bytes consumed, or the exact error.
/// Code 3 (arbitrary) is a capability limit; an incomplete or overrun length
/// field is `Truncated`; an odd two-equal-frames total and a second explicit
/// frame over the hard cap are `InvalidPacket`.
pub open spec fn spec_new(b: Seq<u8>, pos: int, code: int) -> Result<(FramePacking, int), Error>
    recommends
        0 <= pos <= b.len(),
        0 <= code <= 3,
{
    if code == 3 {
        Err(Error::UnsupportedFramePacking)
    } else {
        match frame_length::spec_decode(b.skip(pos)) {
            None => Err(Error::Truncated),
            Some((n, k)) => {
                if code == 0 {
                    Ok((FramePacking::OneFrame(n as usize), k))
                } else if code == 1 {
                    if n % 2 != 0 {
                        Err(Error::InvalidPacket)
                    } else {
                        Ok((FramePacking::TwoFramesEqualSize(n as usize), k))
                    }
                } else {
                    let remaining = b.len() - pos - k;
                    if remaining < n {
                        Err(Error::Truncated)
                    } else if remaining - n > MAX_FRAME_LENGTH {
                        Err(Error::InvalidPacket)
                    } else {
                        Ok((FramePacking::TwoFramesExplicitSizes(n as usize, (remaining - n) as usize), k))
                    }
                }
            },
        }
    }
}

impl FramePacking {
    /// Interprets the length field(s) that follow the configuration byte.
    /// `pos` is where they start in `buffer` and `code` is the packing code
    /// from the TOC byte; returns the packing and the count of length bytes
    /// consumed. Nothing is read past the buffer's end, and on failure the
    /// caller's view of the buffer is untouched, so a truncated packet can
    /// be retried once more bytes have arrived.
    pub fn new(buffer: &[u8], pos: usize, code: u8) -> (r: Result<(FramePacking, usize), Error>)
        requires
            pos <= buffer@.len(),
            code <= 3,
        ensures
            match r {
                Ok((p, k)) => {
                    &&& spec_new(buffer@, pos as int, code as int) == Ok::<(FramePacking, int), Error>((p, k as int))
                    &&& pos + k <= buffer@.len()
                    &&& 1 <= k <= 2
                },
                Err(e) => spec_new(buffer@, pos as int, code as int) == Err::<(FramePacking, int), Error>(e),
            },
    {
        if code == 3 {
            return Err(Error::UnsupportedFramePacking);
        }
        let (n, k) = match frame_length::decode(buffer, pos) {
            Ok(x) => x,
            Err(e) => {
                return Err(e);
            },
        };
        if code == 0 {
            Ok((FramePacking::OneFrame(n as usize), k))
        } else if code == 1 {
            if n % 2 != 0 {
                Err(Error::InvalidPacket)
            } else {
                Ok((FramePacking::TwoFramesEqualSize(n as usize), k))
            }
        } else {
            let remaining: usize = buffer.len() - pos - k;
            if remaining < n as usize {
                Err(Error::Truncated)
            } else if remaining - n as usize > MAX_FRAME_LENGTH as usize {
                Err(Error::InvalidPacket)
            } else {
                Ok((FramePacking::TwoFramesExplicitSizes(n as usize, remaining - n as usize), k))
            }
        }
    }
}

} // verus!
