//! Opus packet framing and entropy decoding.
//!
//! This library covers the two layers every Opus sub-decoder depends on:
//! splitting a compressed packet into its frame byte-spans (the TOC byte,
//! the variable-length frame-size encoding, and the frame-packing rules),
//! and recovering symbols from a frame with a bit-exact range decoder
//! driven by caller-supplied cumulative-frequency tables.
//!
//! Signal reconstruction (SILK/CELT synthesis), bindings to native codec
//! libraries, and host audio APIs are external collaborators and are out
//! of scope here.

use vstd::prelude::*;

pub mod frame_length;
pub mod frame_packing;
pub mod packet;
pub mod range_decoder;
pub mod toc;

verus! {

/// Errors surfaced by the packet parser and the range decoder.
#[derive(Clone, Copy, Debug, PartialEq, Eq, Structural)]
pub enum Error {
    /// The buffer ended before a required field (configuration byte,
    /// length byte, or frame payload) could be read. Recoverable: the
    /// caller may retry once more bytes have arrived.
    Truncated,
    /// The arbitrary frame-packing code was encountered; it is a
    /// capability limit of this core, not a corrupt-stream signal.
    UnsupportedFramePacking,
    /// Structurally consistent bytes with semantically impossible values
    /// (an odd two-equal-frames length, a zero-total frequency table, a
    /// frame span over the hard cap). The packet must be discarded.
    InvalidPacket,
    /// Caller-provided output space is insufficient. Surfaced by higher
    /// layers, kept here so the taxonomy is preserved end-to-end.
    BufferTooSmall,
}

/// Sample rates a coding session can be established with.
#[derive(Clone, Copy, Debug, PartialEq, Eq, Structural)]
pub enum SampleRate {
    Hz8000,
    Hz12000,
    Hz16000,
    Hz24000,
    Hz48000,
}

impl SampleRate {
    /// The rate in hertz.
    pub open spec fn spec_hz(self) -> int {
        match self {
            SampleRate::Hz8000 => 8000,
            SampleRate::Hz12000 => 12000,
            SampleRate::Hz16000 => 16000,
            SampleRate::Hz24000 => 24000,
            SampleRate::Hz48000 => 48000,
        }
    }

    /// The rate in hertz.
    pub fn hz(&self) -> (r: u32)
        ensures
            r == self.spec_hz(),
    {
        match self {
            SampleRate::Hz8000 => 8000,
            SampleRate::Hz12000 => 12000,
            SampleRate::Hz16000 => 16000,
            SampleRate::Hz24000 => 24000,
            SampleRate::Hz48000 => 48000,
        }
    }
}

impl Default for SampleRate {
    fn default() -> (r: Self)
        ensures
            r == SampleRate::Hz48000,
    {
        SampleRate::Hz48000
    }
}

/// Intended use of a coding session, chosen when it is established.
#[derive(Clone, Copy, Debug, PartialEq, Eq, Structural)]
pub enum Application {
    /// Broadcast/high-fidelity: decoded audio as close as possible to the input.
    Audio,
    /// Lowest achievable latency; voice-optimized modes unavailable.
    RestrictedLowdelay,
    /// VoIP/videoconference: listening quality and intelligibility first.
    VOIP,
}

impl Default for Application {
    fn default() -> (r: Self)
        ensures
            r == Application::VOIP,
    {
        Application::VOIP
    }
}

} // verus!
