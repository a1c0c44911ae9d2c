//! The TOC (table-of-contents) byte's configuration index: the top five
//! bits of a packet's first byte select the coding mode and the audio
//! bandwidth through a fixed 32-entry table.

use vstd::prelude::*;

verus! {

/// Coding mode selected by the TOC configuration index.
#[derive(Clone, Copy, Debug, PartialEq, Eq, Structural)]
pub enum Mode {
    /// Speech-optimized coding.
    SILK,
    /// Both layers combined.
    Hybrid,
    /// General-audio-optimized coding.
    CELT,
}

/// Audio bandwidth, selected jointly with the mode.
#[derive(Clone, Copy, Debug, PartialEq, Eq, Structural)]
pub enum Bandwidth {
    /// Narrow band (8 kHz class).
    NB,
    /// Medium band (16 kHz class).
    MB,
    /// Wide band.
    WB,
    /// Super-wide band.
    SWB,
    /// Full band.
    FB,
}

/// The mode the configuration index `config` (0..=31) selects.
pub open spec fn spec_mode(config: int) -> Mode {
    if config <= 11 {
        Mode::SILK
    } else if config <= 15 {
        Mode::Hybrid
    } else {
        Mode::CELT
    }
}

/// The bandwidth the configuration index `config` (0..=31) selects.
pub open spec fn spec_bandwidth(config: int) -> Bandwidth {
    if config <= 3 {
        Bandwidth::NB
    } else if config <= 7 {
        Bandwidth::MB
    } else if config <= 11 {
        Bandwidth::WB
    } else if config <= 13 {
        Bandwidth::SWB
    } else if config <= 15 {
        Bandwidth::FB
    } else if config <= 19 {
        Bandwidth::NB
    } else if config <= 23 {
        Bandwidth::WB
    } else if config <= 27 {
        Bandwidth::SWB
    } else {
        Bandwidth::FB
    }
}

/// Whether `(m, b)` is one of the nine documented mode/bandwidth
/// combinations: SILK at NB/MB/WB, Hybrid at SWB/FB, CELT at NB/WB/SWB/FB.
pub open spec fn spec_documented_pair(m: Mode, b: Bandwidth) -> bool {
    ||| m == Mode::SILK && (b == Bandwidth::NB || b == Bandwidth::MB || b == Bandwidth::WB)
    ||| m == Mode::Hybrid && (b == Bandwidth::SWB || b == Bandwidth::FB)
    ||| m == Mode::CELT && (b == Bandwidth::NB || b == Bandwidth::WB || b == Bandwidth::SWB
        || b == Bandwidth::FB)
}

/// TOC completeness: every configuration index 0..=31 resolves to one of
/// the nine documented mode/bandwidth combinations; no index is unmapped.
/// (Uniqueness is inherent: the pair is a function of the index.)
pub proof fn lemma_toc_complete(config: int)
    requires
        0 <= config < 32,
    ensures
        spec_documented_pair(spec_mode(config), spec_bandwidth(config)),
{
}

/// Resolves a configuration index through the fixed 32-entry table.
pub fn mode_bandwidth(config: u8) -> (r: (Mode, Bandwidth))
    requires
        config < 32,
    ensures
        r.0 == spec_mode(config as int),
        r.1 == spec_bandwidth(config as int),
        spec_documented_pair(r.0, r.1),
{
    proof {
        lemma_toc_complete(config as int);
    }
    if config <= 3 {
        (Mode::SILK, Bandwidth::NB)
    } else if config <= 7 {
        (Mode::SILK, Bandwidth::MB)
    } else if config <= 11 {
        (Mode::SILK, Bandwidth::WB)
    } else if config <= 13 {
        (Mode::Hybrid, Bandwidth::SWB)
    } else if config <= 15 {
        (Mode::Hybrid, Bandwidth::FB)
    } else if config <= 19 {
        (Mode::CELT, Bandwidth::NB)
    } else if config <= 23 {
        (Mode::CELT, Bandwidth::WB)
    } else if config <= 27 {
        (Mode::CELT, Bandwidth::SWB)
    } else {
        (Mode::CELT, Bandwidth::FB)
    }
}

} // verus!
