//! The packet parser: interprets the TOC byte, drives the frame-length
//! codec through the frame-packing rules, and carves the payload into
//! frame byte-spans. A parsed packet borrows nothing: it records spans
//! (offset and length) into the caller's buffer.

use vstd::prelude::*;

use crate::frame_length;
use crate::frame_length::MAX_FRAME_LENGTH;
use crate::frame_packing;
use crate::frame_packing::FramePacking;
use crate::toc;
use crate::toc::{Bandwidth, Mode};
use crate::Error;

verus! {

/// One frame's byte span inside the packet buffer: `len` payload bytes
/// starting at `offset`.
#[derive(Clone, Copy, Debug, PartialEq, Eq, Structural)]
pub struct Frame {
    pub offset: usize,
    pub len: usize,
}

/// A parsed packet: the TOC byte's fields and the ordered frame spans.
/// Derived entirely from the input bytes; owns no payload copy.
#[derive(Clone, Debug)]
pub struct Packet {
    pub mode: Mode,
    pub bandwidth: Bandwidth,
    pub stereo: bool,
    pub frame_packing: FramePacking,
    pub frames: Vec<Frame>,
}

/// Everything a successful parse determines.
pub type Parsed = (Mode, Bandwidth, bool, FramePacking, Seq<Frame>);

/// What parsing `b` yields. The first byte's top five bits select mode and
/// bandwidth, bit 2 the stereo flag, bits 1-0 the packing code; the packing
/// code then decides how the frame length field(s) carve the payload into
/// spans. A buffer that stops short of a required field or of the payload
/// is `Truncated`; payload left over after the frames a packing announces
/// is `InvalidPacket`; the exact span starts and lengths are pinned down
/// for every successful parse.
pub open spec fn spec_parse(b: Seq<u8>) -> Result<Parsed, Error> {
    if b.len() == 0 {
        Err(Error::Truncated)
    } else {
        let c = b[0] as int;
        let config = c / 8;
        let stereo = (c / 4) % 2 == 1;
        let code = c % 4;
        match frame_packing::spec_new(b, 1, code) {
            Err(e) => Err(e),
            Ok((packing, k)) => {
                let body = 1 + k;
                let mode = toc::spec_mode(config);
                let bw = toc::spec_bandwidth(config);
                match packing {
                    FramePacking::OneFrame(n) => {
                        if b.len() < body + n {
                            Err(Error::Truncated)
                        } else if b.len() > body + n {
                            Err(Error::InvalidPacket)
                        } else {
                            Ok((mode, bw, stereo, packing,
                                seq![Frame { offset: body as usize, len: n }]))
                        }
                    },
                    FramePacking::TwoFramesEqualSize(n) => {
                        if b.len() < body + n {
                            Err(Error::Truncated)
                        } else if b.len() > body + n {
                            Err(Error::InvalidPacket)
                        } else {
                            Ok((mode, bw, stereo, packing,
                                seq![
                                    Frame { offset: body as usize, len: (n / 2) as usize },
                                    Frame { offset: (body + n / 2) as usize, len: (n / 2) as usize },
                                ]))
                        }
                    },
                    FramePacking::TwoFramesExplicitSizes(s1, s2) => {
                        Ok((mode, bw, stereo, packing,
                            seq![
                                Frame { offset: body as usize, len: s1 },
                                Frame { offset: (body + s1) as usize, len: s2 },
                            ]))
                    },
                    FramePacking::Arbitrary => Err(Error::UnsupportedFramePacking),
                }
            },
        }
    }
}

/// The lengths of the first `k` spans of `fs`, added up.
pub open spec fn spec_sum_frame_lens(fs: Seq<Frame>, k: int) -> int
    decreases k,
{
    if k <= 0 {
        0
    } else {
        spec_sum_frame_lens(fs, k - 1) + fs[k - 1].len
    }
}

impl Packet {
    /// Well-formedness against the buffer of length `buf_len` the packet
    /// was parsed from: at least one span, each within the hard cap, the
    /// spans following each other without gap or overlap, and the last one
    /// ending exactly at the buffer's end.
    pub open spec fn wf(self, buf_len: int) -> bool {
        &&& 1 <= self.frames@.len()
        &&& self.frames@[0].offset <= buf_len
        &&& forall|i: int|
            0 <= i < self.frames@.len() ==> (#[trigger] self.frames@[i]).len <= MAX_FRAME_LENGTH
        &&& forall|i: int|
            1 <= i < self.frames@.len() ==> (#[trigger] self.frames@[i]).offset == self.frames@[
                i - 1].offset + self.frames@[i - 1].len
        &&& self.frames@.last().offset + self.frames@.last().len == buf_len
    }

    /// Parses one packet. On success every field, every span offset and
    /// every span length is the one `spec_parse` names; on failure the
    /// error is the one `spec_parse` names, nothing was read past the
    /// buffer's end, and the caller's buffer is untouched, so a truncated
    /// packet can be re-parsed once more bytes have arrived.
    pub fn parse(buffer: &[u8]) -> (r: Result<Packet, Error>)
        ensures
            match r {
                Ok(p) => {
                    &&& spec_parse(buffer@) == Ok::<Parsed, Error>(
                        (p.mode, p.bandwidth, p.stereo, p.frame_packing, p.frames@),
                    )
                    &&& p.wf(buffer@.len() as int)
                },
                Err(e) => spec_parse(buffer@) == Err::<Parsed, Error>(e),
            },
    {
        if buffer.len() == 0 {
            return Err(Error::Truncated);
        }
        let c: u8 = buffer[0];
        let config: u8 = c >> 3;
        let stereo: bool = (c >> 2) & 1 == 1;
        let code: u8 = c & 3;
        proof {
            assert(c >> 3 == c / 8) by (bit_vector);
            assert((c >> 2) & 1 == (c / 4) % 2) by (bit_vector);
            assert(c & 3 == c % 4) by (bit_vector);
        }
        let (packing, k) = match FramePacking::new(buffer, 1, code) {
            Ok(x) => x,
            Err(e) => {
                return Err(e);
            },
        };
        let (mode, bandwidth) = toc::mode_bandwidth(config);
        let body: usize = 1 + k;
        match packing {
            FramePacking::OneFrame(n) => {
                if buffer.len() < body + n {
                    Err(Error::Truncated)
                } else if buffer.len() > body + n {
                    Err(Error::InvalidPacket)
                } else {
                    let mut frames: Vec<Frame> = Vec::new();
                    frames.push(Frame { offset: body, len: n });
                    let p = Packet { mode, bandwidth, stereo, frame_packing: packing, frames };
                    proof {
                        assert(p.frames@ =~= seq![Frame { offset: body, len: n }]);
                    }
                    Ok(p)
                }
            },
            FramePacking::TwoFramesEqualSize(n) => {
                if buffer.len() < body + n {
                    Err(Error::Truncated)
                } else if buffer.len() > body + n {
                    Err(Error::InvalidPacket)
                } else {
                    let half: usize = n / 2;
                    let mut frames: Vec<Frame> = Vec::new();
                    frames.push(Frame { offset: body, len: half });
                    frames.push(Frame { offset: body + half, len: half });
                    let p = Packet { mode, bandwidth, stereo, frame_packing: packing, frames };
                    proof {
                        assert(p.frames@ =~= seq![
                            Frame { offset: body, len: half },
                            Frame { offset: (body + half) as usize, len: half },
                        ]);
                        assert(n % 2 == 0);
                    }
                    Ok(p)
                }
            },
            FramePacking::TwoFramesExplicitSizes(s1, s2) => {
                let mut frames: Vec<Frame> = Vec::new();
                frames.push(Frame { offset: body, len: s1 });
                frames.push(Frame { offset: body + s1, len: s2 });
                let p = Packet { mode, bandwidth, stereo, frame_packing: packing, frames };
                proof {
                    assert(p.frames@ =~= seq![
                        Frame { offset: body, len: s1 },
                        Frame { offset: (body + s1) as usize, len: s2 },
                    ]);
                }
                Ok(p)
            },
            FramePacking::Arbitrary => Err(Error::UnsupportedFramePacking),
        }
    }
}

proof fn lemma_prefix_sum(fs: Seq<Frame>, k: int)
    requires
        1 <= k <= fs.len(),
        forall|i: int|
            1 <= i < fs.len() ==> (#[trigger] fs[i]).offset == fs[i - 1].offset + fs[i - 1].len,
    ensures
        fs[0].offset + spec_sum_frame_lens(fs, k) == fs[k - 1].offset + fs[k - 1].len,
    decreases k,
{
    assert(spec_sum_frame_lens(fs, 0) == 0);
    if k > 1 {
        lemma_prefix_sum(fs, k - 1);
        assert(fs[k - 1].offset == fs[k - 2].offset + fs[k - 2].len);
    }
}

/// Span coverage: for any packet well-formed against its buffer, the
/// consumed header bytes (everything before the first span) plus all
/// frame-span lengths add up to exactly the buffer's length; no byte is
/// lost or double-counted. `Packet::parse` establishes `wf` for every
/// packet it returns.
pub proof fn lemma_span_coverage(p: Packet, buf_len: int)
    requires
        p.wf(buf_len),
    ensures
        p.frames@[0].offset + spec_sum_frame_lens(p.frames@, p.frames@.len() as int) == buf_len,
{
    lemma_prefix_sum(p.frames@, p.frames@.len() as int);
}

/// Truncation safety: a strict prefix of a buffer that parses successfully
/// itself fails with `Truncated`, at whichever byte boundary the cut falls.
/// The one packing this cannot hold for is the two-explicit-sizes code once
/// the cut leaves the whole first frame in place: there the second frame is
/// defined as all remaining payload, so such a prefix is again a complete
/// packet; the last precondition leaves exactly those cuts out.
pub proof fn lemma_truncation_safety(b: Seq<u8>, m: int)
    requires
        spec_parse(b) is Ok,
        0 <= m < b.len(),
        b[0] as int % 4 == 2 ==> m < 1 + frame_length::spec_decode(b.skip(1))->Some_0.1
            + frame_length::spec_decode(b.skip(1))->Some_0.0,
    ensures
        spec_parse(b.take(m)) == Err::<Parsed, Error>(Error::Truncated),
{
    let p = b.take(m);
    if m == 0 {
        assert(p.len() == 0);
    } else {
        assert(p[0] == b[0]);
        let c = b[0] as int;
        let code = c % 4;
        let t = b.skip(1);
        let tp = p.skip(1);
        assert(tp =~= t.take(m - 1));
        // spec_parse(b) is Ok, so the length field decodes; name its parts.
        let (n, k) = frame_length::spec_decode(t)->Some_0;
        if m - 1 == 0 {
            assert(frame_length::spec_decode(tp) is None);
        } else {
            assert(tp[0] == t[0]);
            if t[0] <= 251 {
                assert(frame_length::spec_decode(tp) == Some((n, k)));
            } else if m - 1 == 1 {
                assert(frame_length::spec_decode(tp) is None);
            } else {
                assert(tp[1] == t[1]);
                assert(frame_length::spec_decode(tp) == Some((n, k)));
            }
        }
    }
}

} // verus!
