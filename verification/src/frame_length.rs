//! The variable-length integer used everywhere a frame size must be
//! communicated inside a packet: one byte for values 0..=251, two bytes
//! (a marker byte 252..=255 and a multiplier byte) for values 252..=1275.

use vstd::arithmetic::div_mod::lemma_fundamental_div_mod;
use vstd::prelude::*;

use crate::Error;

verus! {

/// Largest value the 1- or 2-byte frame-length encoding can carry
/// (255 * 4 + 255), and the hard cap on a single Opus frame's size.
pub const MAX_FRAME_LENGTH: u16 = 1275;

/// What the frame-size field at the front of `b` decodes to: the value and
/// the count of bytes the field occupies (1 or 2), or `None` when `b` ends
/// before the field is complete.
pub open spec fn spec_decode(b: Seq<u8>) -> Option<(int, int)> {
    if b.len() == 0 {
        None
    } else if b[0] <= 251 {
        Some((b[0] as int, 1))
    } else if b.len() < 2 {
        None
    } else {
        Some((b[1] as int * 4 + b[0] as int, 2))
    }
}

/// The encoding of `v`: the single byte `v` for 0..=251; otherwise the pair
/// `(b0, b1)` with `b0` in 252..=255 chosen so that `v == b1 * 4 + b0`.
pub open spec fn spec_encode(v: int) -> Seq<u8>
    recommends
        0 <= v <= MAX_FRAME_LENGTH,
{
    if v <= 251 {
        seq![v as u8]
    } else {
        seq![(252 + (v - 252) % 4) as u8, ((v - 252) / 4) as u8]
    }
}

/// Round-trip law: every representable value 0..=1275 decodes back from its
/// own encoding, consuming exactly the encoding's length (1 byte for values
/// up to 251, 2 bytes above).
pub proof fn lemma_round_trip(v: int)
    requires
        0 <= v <= MAX_FRAME_LENGTH,
    ensures
        spec_encode(v).len() == if v <= 251 { 1int } else { 2int },
        spec_decode(spec_encode(v)) == Some((v, spec_encode(v).len() as int)),
{
    if v > 251 {
        let b0 = 252 + (v - 252) % 4;
        let b1 = (v - 252) / 4;
        lemma_fundamental_div_mod(v - 252, 4);
        assert(b1 * 4 + b0 == v);
        assert(252 <= b0 <= 255);
        assert(0 <= b1 <= 255);
    }
}

/// Decodes the frame-size field found at offset `pos` of `buffer`, returning
/// the value and how many bytes the field occupies. Fails with `Truncated`,
/// reading nothing past the end, when the buffer stops short of the field.
pub fn decode(buffer: &[u8], pos: usize) -> (r: Result<(u16, usize), Error>)
    ensures
        match r {
            Ok((v, k)) => {
                &&& pos < buffer@.len()
                &&& spec_decode(buffer@.skip(pos as int)) == Some((v as int, k as int))
                &&& v <= MAX_FRAME_LENGTH
                &&& 1 <= k <= 2
                &&& pos + k <= buffer@.len()
            },
            Err(e) => {
                &&& e == Error::Truncated
                &&& (pos >= buffer@.len() || spec_decode(buffer@.skip(pos as int)) is None)
            },
        },
{
    if pos >= buffer.len() {
        return Err(Error::Truncated);
    }
    let b0: u8 = buffer[pos];
    if b0 <= 251 {
        Ok((b0 as u16, 1))
    } else if pos + 1 >= buffer.len() {
        Err(Error::Truncated)
    } else {
        let b1: u8 = buffer[pos + 1];
        Ok((b1 as u16 * 4 + b0 as u16, 2))
    }
}

/// Encodes `v` as the 1- or 2-byte frame-size field; the exact inverse of
/// `decode`, as the second postcondition states.
pub fn encode(v: u16) -> (r: Vec<u8>)
    requires
        v <= MAX_FRAME_LENGTH,
    ensures
        r@ == spec_encode(v as int),
        spec_decode(r@) == Some((v as int, r@.len() as int)),
{
    let mut out: Vec<u8> = Vec::new();
    if v <= 251 {
        out.push(v as u8);
    } else {
        out.push((252 + (v - 252) % 4) as u8);
        out.push(((v - 252) / 4) as u8);
    }
    proof {
        lemma_round_trip(v as int);
        assert(out@ =~= spec_encode(v as int));
    }
    out
}

} // verus!
