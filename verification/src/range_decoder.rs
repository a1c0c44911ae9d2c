//! The bit-exact range (arithmetic) decoder: given one frame's bytes and,
//! per call, a cumulative-frequency table, it extracts symbols one at a
//! time while renormalizing its shrinking interval from fresh input bytes.
//! Bytes past the frame's end read as zero padding, never as an error.

use vstd::arithmetic::div_mod::{lemma_div_non_zero, lemma_fundamental_div_mod, lemma_mod_bound};
use vstd::arithmetic::mul::{
    lemma_mul_inequality, lemma_mul_is_commutative, lemma_mul_is_distributive_add,
};
use vstd::prelude::*;
use vstd::slice::slice_to_vec;

use crate::Error;

verus! {

/// Lower renormalization bound for the interval width: whenever `range`
/// falls below this after a symbol is decoded, fresh bytes are shifted in
/// until it is at least this wide again.
pub const RENORM_LIMIT: u32 = 0x0080_0000;

/// The decoder's mathematical state: the frame's bytes and the three
/// registers — the decoded position `value` within the interval, the
/// interval width `range`, and the offset `cursor` of the next unread byte.
#[verifier::ext_equal]
pub struct DecoderModel {
    pub frame: Seq<u8>,
    pub value: int,
    pub range: int,
    pub cursor: int,
}

impl DecoderModel {
    /// The decoder's invariant: the position lies inside the interval, the
    /// width fits the 32-bit register, and the cursor stays inside the
    /// frame (padding reads do not advance it).
    pub open spec fn wf(self) -> bool {
        &&& 0 <= self.value < self.range
        &&& self.range < 0x1_0000_0000
        &&& 0 <= self.cursor <= self.frame.len()
    }
}

/// `fl(k)`: the frequencies of the symbols below `k`, added up.
pub open spec fn spec_cum_freq(f: Seq<u16>, k: int) -> int
    recommends
        0 <= k <= f.len(),
    decreases k,
{
    if k <= 0 {
        0
    } else {
        spec_cum_freq(f, k - 1) + f[k - 1]
    }
}

/// `ft`: the table's total frequency.
pub open spec fn spec_total(f: Seq<u16>) -> int {
    spec_cum_freq(f, f.len() as int)
}

/// Cumulative frequencies never decrease.
pub proof fn lemma_cum_monotonic(f: Seq<u16>, i: int, j: int)
    requires
        0 <= i <= j,
    ensures
        spec_cum_freq(f, i) <= spec_cum_freq(f, j),
    decreases j - i,
{
    if i < j {
        lemma_cum_monotonic(f, i, j - 1);
    }
}

/// The first bucket at or after `k` whose upper cumulative bound exceeds
/// `fs` (the last bucket when none does).
pub open spec fn spec_symbol_at(f: Seq<u16>, fs: int, k: int) -> int
    recommends
        0 <= k < f.len(),
    decreases f.len() - k,
{
    if k + 1 >= f.len() || fs < spec_cum_freq(f, k + 1) {
        k
    } else {
        spec_symbol_at(f, fs, k + 1)
    }
}

/// The symbol index whose cumulative-frequency bucket the scaled fraction
/// `fs` falls into: the `i` with `fl(i) <= fs < fh(i)`.
pub open spec fn spec_symbol(f: Seq<u16>, fs: int) -> int {
    spec_symbol_at(f, fs, 0)
}

proof fn lemma_symbol_at_bucket(f: Seq<u16>, fs: int, k: int)
    requires
        0 <= k < f.len(),
        spec_cum_freq(f, k) <= fs < spec_total(f),
    ensures
        ({
            let i = spec_symbol_at(f, fs, k);
            &&& k <= i < f.len()
            &&& spec_cum_freq(f, i) <= fs < spec_cum_freq(f, i + 1)
        }),
    decreases f.len() - k,
{
    if k + 1 >= f.len() {
        assert(spec_cum_freq(f, k + 1) == spec_total(f));
    } else if fs >= spec_cum_freq(f, k + 1) {
        lemma_symbol_at_bucket(f, fs, k + 1);
    }
}

/// The bucket the decoder selects brackets the scaled fraction: for any
/// `fs` below the total, `fl(i) <= fs < fh(i)` holds of the chosen index
/// `i`, which lies inside the table.
pub proof fn lemma_symbol_bucket(f: Seq<u16>, fs: int)
    requires
        0 <= fs < spec_total(f),
    ensures
        ({
            let i = spec_symbol(f, fs);
            &&& 0 <= i < f.len()
            &&& spec_cum_freq(f, i) <= fs < spec_cum_freq(f, i + 1)
        }),
{
    if f.len() == 0 {
        assert(spec_total(f) == 0);
    }
    lemma_symbol_at_bucket(f, fs, 0);
}

pub open spec fn spec_renorm_measure(range: int) -> int {
    if range < 1 || range >= RENORM_LIMIT {
        0
    } else {
        RENORM_LIMIT - range
    }
}

/// Renormalization: while the interval is narrower than `RENORM_LIMIT`,
/// widen it by a byte's worth and fold the next input byte (zero once the
/// frame is exhausted, without advancing the cursor) into the position by
/// the same shift-and-combine that seeds a fresh decoder.
pub open spec fn spec_renorm(frame: Seq<u8>, value: int, range: int, cursor: int) -> (int, int, int)
    recommends
        0 <= value < range,
        0 <= cursor <= frame.len(),
    decreases spec_renorm_measure(range),
{
    if range < 1 || range >= RENORM_LIMIT {
        (value, range, cursor)
    } else {
        let b = if cursor < frame.len() {
            frame[cursor] as int
        } else {
            0
        };
        let next_cursor = if cursor < frame.len() {
            cursor + 1
        } else {
            cursor
        };
        spec_renorm(frame, value * 256 + (127 - b / 2), range * 256, next_cursor)
    }
}

/// The state a decoder starts a frame with: the first byte (zero for an
/// empty frame) seeds `value`, and the interval starts 128 wide.
pub open spec fn spec_init(frame: Seq<u8>) -> DecoderModel {
    let b0 = if frame.len() > 0 {
        frame[0] as int
    } else {
        0
    };
    DecoderModel {
        frame: frame,
        value: 127 - b0 / 2,
        range: 128,
        cursor: if frame.len() > 0 {
            1
        } else {
            0
        },
    }
}

/// What one `decode_symbol` call does to the state `st` under the table
/// `f`, and which symbol index it returns. A zero-total table, or one whose
/// total exceeds the current interval width (where the scaling division
/// would degenerate), is rejected as `InvalidPacket` before any arithmetic.
/// Otherwise the interval is narrowed to the selected symbol's bucket — the
/// bottom bucket as the complement of the rest, avoiding rounding loss —
/// and renormalized.
pub open spec fn spec_decode_step(st: DecoderModel, f: Seq<u16>) -> Result<(DecoderModel, int), Error> {
    let ft = spec_total(f);
    if ft == 0 || ft > st.range {
        Err(Error::InvalidPacket)
    } else {
        let s = st.range / ft;
        let q = st.value / s + 1;
        let fs = ft - (if q < ft {
            q
        } else {
            ft
        });
        let i = spec_symbol(f, fs);
        let fl = spec_cum_freq(f, i);
        let fh = spec_cum_freq(f, i + 1);
        let value2 = st.value - s * (ft - fh);
        let range2 = if fl > 0 {
            s * (fh - fl)
        } else {
            st.range - s * (ft - fh)
        };
        let (value3, range3, cursor3) = spec_renorm(st.frame, value2, range2, st.cursor);
        Ok((DecoderModel { frame: st.frame, value: value3, range: range3, cursor: cursor3 }, i))
    }
}

/// Per-frame decoder state over an owned copy of the frame's bytes.
pub struct RangeDecoder {
    pub frame: Vec<u8>,
    pub value: u32,
    pub range: u32,
    pub cursor: usize,
}

impl View for RangeDecoder {
    type V = DecoderModel;

    open spec fn view(&self) -> DecoderModel {
        DecoderModel {
            frame: self.frame@,
            value: self.value as int,
            range: self.range as int,
            cursor: self.cursor as int,
        }
    }
}

/// Adds the table up, rejecting a total above `cap` as soon as the running
/// sum passes it.
fn checked_total(freqs: &[u16], cap: u32) -> (r: Option<u32>)
    ensures
        match r {
            Some(t) => t == spec_total(freqs@) && t <= cap,
            None => spec_total(freqs@) > cap,
        },
{
    let mut sum: u32 = 0;
    let mut i: usize = 0;
    assert(spec_cum_freq(freqs@, 0) == 0);
    while i < freqs.len()
        invariant
            i <= freqs@.len(),
            sum == spec_cum_freq(freqs@, i as int),
            sum <= cap,
        decreases freqs@.len() - i,
    {
        let next: u64 = sum as u64 + freqs[i] as u64;
        if next > cap as u64 {
            proof {
                lemma_cum_monotonic(freqs@, i as int + 1, freqs@.len() as int);
            }
            return None;
        }
        sum = next as u32;
        i = i + 1;
    }
    Some(sum)
}

/// Walks the cumulative sums up to the bucket `fs` falls into, returning
/// the symbol index with its `fl` and `fh`.
fn lookup_symbol(freqs: &[u16], fs: u32) -> (r: (usize, u32, u32))
    requires
        fs < spec_total(freqs@),
        spec_total(freqs@) <= u32::MAX,
    ensures
        ({
            let (i, fl, fh) = r;
            &&& i as int == spec_symbol(freqs@, fs as int)
            &&& i < freqs@.len()
            &&& fl == spec_cum_freq(freqs@, i as int)
            &&& fh == spec_cum_freq(freqs@, i as int + 1)
            &&& fl <= fs < fh
            &&& fh <= spec_total(freqs@)
        }),
{
    proof {
        if freqs@.len() == 0 {
            assert(spec_total(freqs@) == 0);
        }
    }
    let mut i: usize = 0;
    let mut fl: u32 = 0;
    let mut fh: u32 = freqs[0] as u32;
    proof {
        assert(spec_cum_freq(freqs@, 0) == 0);
        assert(spec_cum_freq(freqs@, 1) == freqs@[0]);
        lemma_cum_monotonic(freqs@, 1, freqs@.len() as int);
    }
    while i < freqs.len() - 1 && fh <= fs
        invariant
            i < freqs@.len(),
            fl == spec_cum_freq(freqs@, i as int),
            fh == spec_cum_freq(freqs@, i as int + 1),
            fl <= fs,
            fs < spec_total(freqs@),
            spec_total(freqs@) <= u32::MAX,
            spec_symbol(freqs@, fs as int) == spec_symbol_at(freqs@, fs as int, i as int),
        decreases freqs@.len() - i,
    {
        proof {
            assert(spec_symbol_at(freqs@, fs as int, i as int) == spec_symbol_at(
                freqs@,
                fs as int,
                i as int + 1,
            ));
            lemma_cum_monotonic(freqs@, i as int + 2, freqs@.len() as int);
        }
        i = i + 1;
        fl = fh;
        fh = fh + freqs[i] as u32;
    }
    proof {
        if i + 1 >= freqs@.len() {
            assert(fh == spec_total(freqs@));
        }
        assert(spec_symbol_at(freqs@, fs as int, i as int) == i as int);
        lemma_cum_monotonic(freqs@, i as int + 1, freqs@.len() as int);
    }
    (i, fl, fh)
}

impl RangeDecoder {
    /// Starts decoding a frame: one byte (zero for an empty frame) seeds
    /// `value` as `127 - (b0 >> 1)`, the interval starts 128 wide, and the
    /// cursor sits on the next unread byte.
    pub fn new(frame: &[u8]) -> (r: RangeDecoder)
        ensures
            r@ == spec_init(frame@),
            r@.wf(),
    {
        let b0: u8 = if frame.len() > 0 {
            frame[0]
        } else {
            0
        };
        proof {
            assert(b0 >> 1 == b0 / 2 && b0 / 2 <= 127) by (bit_vector);
        }
        let r = RangeDecoder {
            frame: slice_to_vec(frame),
            value: 127 - (b0 >> 1) as u32,
            range: 128,
            cursor: if frame.len() > 0 {
                1
            } else {
                0
            },
        };
        proof {
            assert(r@ =~= spec_init(frame@));
        }
        r
    }

    /// Decodes one symbol against the caller-supplied frequency table
    /// (symbol `i` has frequency `freqs[i]`). The new state and the
    /// returned index are exactly the ones `spec_decode_step` names; on
    /// success the interval is back in `[RENORM_LIMIT, 2^32)`. A table
    /// with zero total, or with a total wider than the current interval,
    /// changes nothing and returns `InvalidPacket`; no division by zero
    /// is ever performed.
    pub fn decode_symbol(&mut self, freqs: &[u16]) -> (r: Result<usize, Error>)
        requires
            old(self)@.wf(),
        ensures
            final(self)@.wf(),
            final(self)@.frame == old(self)@.frame,
            match r {
                Ok(i) => {
                    &&& spec_decode_step(old(self)@, freqs@) == Ok::<(DecoderModel, int), Error>(
                        (final(self)@, i as int),
                    )
                    &&& i < freqs@.len()
                    &&& final(self)@.range >= RENORM_LIMIT
                },
                Err(e) => {
                    &&& spec_decode_step(old(self)@, freqs@) == Err::<(DecoderModel, int), Error>(e)
                    &&& final(self)@ == old(self)@
                },
            },
    {
        let ft: u32 = match checked_total(freqs, self.range) {
            Some(t) => t,
            None => {
                return Err(Error::InvalidPacket);
            },
        };
        if ft == 0 {
            return Err(Error::InvalidPacket);
        }
        proof {
            lemma_div_non_zero(self.range as int, ft as int);
        }
        let s: u32 = self.range / ft;
        let q: u64 = (self.value / s) as u64 + 1;
        let fs: u32 = if q < ft as u64 {
            ft - q as u32
        } else {
            0
        };
        let (i, fl, fh) = lookup_symbol(freqs, fs);
        proof {
            let sv = s as int;
            let ftv = ft as int;
            let flv = fl as int;
            let fhv = fh as int;
            let value = self.value as int;
            let range = self.range as int;
            lemma_fundamental_div_mod(range, ftv);
            lemma_mod_bound(range, ftv);
            // s * ft <= range, so every product below stays in range
            assert(sv * ftv <= range);
            lemma_mul_inequality(ftv - fhv, ftv, sv);
            assert((ftv - fhv) * sv <= ftv * sv);
            lemma_fundamental_div_mod(value, sv);
            lemma_mod_bound(value, sv);
            // value / s >= ft - fh, so the value update cannot underflow
            assert(value / sv >= ftv - fhv);
            lemma_mul_inequality(ftv - fhv, value / sv, sv);
            lemma_mul_is_commutative(ftv - fhv, sv);
            lemma_mul_is_commutative(value / sv, sv);
            assert(sv * (ftv - fhv) <= value);
            // the narrowed interval still contains the updated position
            if flv > 0 {
                assert(value / sv + 1 <= ftv - flv);
                lemma_mul_inequality(value / sv + 1, ftv - flv, sv);
                lemma_mul_is_distributive_add(sv, value / sv, 1);
                assert(value < sv * (value / sv + 1));
                lemma_mul_is_distributive_add(sv, ftv - fhv, fhv - flv);
                assert(sv * (ftv - fhv) + sv * (fhv - flv) == sv * (ftv - flv));
                assert(value - sv * (ftv - fhv) < sv * (fhv - flv));
                lemma_mul_inequality(fhv - flv, ftv, sv);
                assert((fhv - flv) * sv <= ftv * sv);
            }
        }
        let diff: u32 = s * (ft - fh);
        let mut value: u32 = self.value - diff;
        let mut range: u32 = if fl > 0 {
            s * (fh - fl)
        } else {
            self.range - diff
        };
        let mut cursor: usize = self.cursor;
        let ghost v2 = value as int;
        let ghost r2 = range as int;
        let ghost c2 = cursor as int;
        while range < RENORM_LIMIT
            invariant
                value < range,
                cursor <= self.frame@.len(),
                spec_renorm(self.frame@, v2, r2, c2) == spec_renorm(
                    self.frame@,
                    value as int,
                    range as int,
                    cursor as int,
                ),
            decreases spec_renorm_measure(range as int),
        {
            let b: u8;
            if cursor < self.frame.len() {
                b = self.frame[cursor];
            } else {
                b = 0;
            }
            proof {
                assert(b >> 1 == b / 2 && b / 2 <= 127) by (bit_vector);
                assert(spec_renorm(self.frame@, value as int, range as int, cursor as int)
                    == spec_renorm(
                    self.frame@,
                    value as int * 256 + (127 - b as int / 2),
                    range as int * 256,
                    if cursor < self.frame@.len() {
                        cursor as int + 1
                    } else {
                        cursor as int
                    },
                ));
            }
            value = value * 256 + (127 - (b >> 1) as u32);
            range = range * 256;
            if cursor < self.frame.len() {
                cursor = cursor + 1;
            }
        }
        proof {
            assert(spec_renorm(self.frame@, value as int, range as int, cursor as int) == (
                value as int,
                range as int,
                cursor as int,
            ));
        }
        self.value = value;
        self.range = range;
        self.cursor = cursor;
        proof {
            let step = spec_decode_step(old(self)@, freqs@);
            assert(step matches Ok(p) && p.0 =~= self@ && p.1 == i as int);
        }
        Ok(i)
    }
}

/// Replaying a table sequence: the final state and, per call, the symbol
/// or error each step yields (an error leaves the state as it was).
pub open spec fn spec_run(st: DecoderModel, tables: Seq<Seq<u16>>) -> (DecoderModel, Seq<
    Result<int, Error>,
>)
    decreases tables.len(),
{
    if tables.len() == 0 {
        (st, seq![])
    } else {
        let first = match spec_decode_step(st, tables[0]) {
            Ok((m, i)) => (m, Ok::<int, Error>(i)),
            Err(e) => (st, Err::<int, Error>(e)),
        };
        let rest = spec_run(first.0, tables.drop_first());
        (rest.0, seq![first.1] + rest.1)
    }
}

/// Determinism: the decoder's outcome is a function of its registers, its
/// frame bytes and the supplied tables alone — two decoders that agree on
/// `(value, range, cursor)` and on the frame bytes yield identical symbol
/// sequences and identical final states under the same tables. There is no
/// hidden state and no randomness.
pub proof fn lemma_replay_deterministic(a: DecoderModel, b: DecoderModel, tables: Seq<Seq<u16>>)
    requires
        a.value == b.value,
        a.range == b.range,
        a.cursor == b.cursor,
        a.frame == b.frame,
    ensures
        spec_run(a, tables) == spec_run(b, tables),
{
    assert(a =~= b);
}

} // verus!
