use vstd::prelude::*;
use vstd::arithmetic::div_mod::lemma_fundamental_div_mod;
use vstd::arithmetic::mul::lemma_mul_upper_bound;
use crate::signature::{sixteenths_per_beat, ticks_per_bar, ticks_per_beat, Signature};
use crate::ticks::{TicksTime, TICKS_RESOLUTION};

verus! {

/// A human-oriented decomposition of a tick position into bars, beats,
/// sixteenths and leftover ticks. Meaningful only relative to the
/// [`Signature`] used to produce it. A value built directly from literal
/// components (the editing path) need not be normalized until round-tripped
/// through [`BarsTime::to_ticks_time`] and [`BarsTime::from_ticks_time`].
#[derive(Clone, Copy, Debug, PartialEq, Eq, Structural, Hash)]
pub struct BarsTime {
    pub bars: u16,
    pub beats: u16,
    pub sixteenths: u16,
    pub ticks: u16,
}

impl BarsTime {
    /// Normalized with respect to `signature`: every component below its
    /// modulus, as [`BarsTime::from_ticks_time`] produces it.
    pub open spec fn is_normalized(&self, signature: Signature) -> bool {
        self.beats < signature.num_beats
            && self.sixteenths < sixteenths_per_beat(signature)
            && self.ticks < TICKS_RESOLUTION
    }

    /// The absolute tick count this decomposition denotes under `signature`.
    pub open spec fn spec_ticks(&self, signature: Signature) -> int {
        self.bars * ticks_per_bar(signature) + self.beats * ticks_per_beat(signature)
            + self.sixteenths * (TICKS_RESOLUTION as int) + self.ticks
    }

    /// Builds a position from literal components (the UI editing path); no
    /// normalization is performed.
    pub fn new(bars: u16, beats: u16, sixteenths: u16, ticks: u16) -> (r: BarsTime)
        ensures
            r.bars == bars,
            r.beats == beats,
            r.sixteenths == sixteenths,
            r.ticks == ticks,
    {
        BarsTime { bars, beats, sixteenths, ticks }
    }

    /// Decomposes an absolute tick count into the bars/beats/sixteenths/ticks
    /// hierarchy for display or editing, by truncating integer division.
    ///
    /// The tick count must be small enough that the bar component fits in the
    /// `u16` field; all other components are bounded by their moduli.
    pub fn from_ticks_time(ticks_time: TicksTime, signature: Signature) -> (r: BarsTime)
        requires
            signature.valid(),
            ticks_time@ as int / (TICKS_RESOLUTION as int) / sixteenths_per_beat(signature)
                / (signature.num_beats as int) <= u16::MAX,
        ensures
            r.bars == ticks_time@ as int / (TICKS_RESOLUTION as int)
                / sixteenths_per_beat(signature) / (signature.num_beats as int),
            r.beats == (ticks_time@ as int / (TICKS_RESOLUTION as int)
                / sixteenths_per_beat(signature)) % (signature.num_beats as int),
            r.sixteenths == (ticks_time@ as int / (TICKS_RESOLUTION as int))
                % sixteenths_per_beat(signature),
            r.ticks == ticks_time@ as int % (TICKS_RESOLUTION as int),
            r.is_normalized(signature),
    {
        let t: u64 = ticks_time.get_ticks();
        let total_sixteenths: u64 = t / TICKS_RESOLUTION;
        let num_sixteenths_per_beat: u64 = 16 / (signature.get_note_value() as u64);
        let total_beats: u64 = total_sixteenths / num_sixteenths_per_beat;
        let num_beats: u64 = signature.get_num_beats() as u64;
        BarsTime {
            bars: (total_beats / num_beats) as u16,
            beats: (total_beats % num_beats) as u16,
            sixteenths: (total_sixteenths % num_sixteenths_per_beat) as u16,
            ticks: (t % TICKS_RESOLUTION) as u16,
        }
    }

    pub fn get_bars(&self) -> (r: u16)
        ensures
            r == self.bars,
    {
        self.bars
    }

    pub fn get_beats(&self) -> (r: u16)
        ensures
            r == self.beats,
    {
        self.beats
    }

    pub fn get_sixteenths(&self) -> (r: u16)
        ensures
            r == self.sixteenths,
    {
        self.sixteenths
    }

    pub fn get_ticks(&self) -> (r: u16)
        ensures
            r == self.ticks,
    {
        self.ticks
    }

    /// Reconstructs the absolute tick count that this decomposition denotes
    /// under `signature`. With `u16` components and a valid signature the sum
    /// always fits the tick domain, so reconstruction cannot overflow.
    pub fn to_ticks_time(&self, signature: Signature) -> (r: TicksTime)
        requires
            signature.valid(),
        ensures
            r@ == self.spec_ticks(signature),
    {
        let num_sixteenths_per_beat: u64 = 16 / (signature.get_note_value() as u64);
        let num_ticks_per_beat: u64 = num_sixteenths_per_beat * TICKS_RESOLUTION;
        proof {
            assert(num_ticks_per_beat <= 15360);
            lemma_mul_upper_bound(signature.num_beats as int, u16::MAX as int,
                num_ticks_per_beat as int, 15360);
        }
        let num_ticks_per_bar: u64 = (signature.get_num_beats() as u64) * num_ticks_per_beat;
        proof {
            assert(num_ticks_per_bar <= 65535int * 15360);
            lemma_mul_upper_bound(self.bars as int, u16::MAX as int,
                num_ticks_per_bar as int, 65535int * 15360);
            lemma_mul_upper_bound(self.beats as int, u16::MAX as int,
                num_ticks_per_beat as int, 15360);
        }
        TicksTime::new(
            self.bars as u64 * num_ticks_per_bar
                + self.beats as u64 * num_ticks_per_beat
                + self.sixteenths as u64 * TICKS_RESOLUTION
                + self.ticks as u64,
        )
    }
}

/// Round-trip law: decomposing any non-negative tick count `t` under a valid
/// signature and re-encoding the components returns exactly `t`. Stated over
/// the quotient/remainder formulas that [`BarsTime::from_ticks_time`] ensures
/// and the reconstruction sum that [`BarsTime::to_ticks_time`] ensures.
pub proof fn lemma_round_trip(t: int, signature: Signature)
    requires
        signature.valid(),
        t >= 0,
    ensures
        ({
            let res = TICKS_RESOLUTION as int;
            let spb = sixteenths_per_beat(signature);
            let nb = signature.num_beats as int;
            (t / res / spb / nb) * ticks_per_bar(signature)
                + ((t / res / spb) % nb) * ticks_per_beat(signature)
                + ((t / res) % spb) * res + t % res == t
        }),
{
    let res = TICKS_RESOLUTION as int;
    let spb = sixteenths_per_beat(signature);
    let nb = signature.num_beats as int;
    let q0 = t / res;
    let r0 = t % res;
    let q1 = q0 / spb;
    let s1 = q0 % spb;
    let q2 = q1 / nb;
    let b1 = q1 % nb;
    lemma_fundamental_div_mod(t, res);
    lemma_fundamental_div_mod(q0, spb);
    lemma_fundamental_div_mod(q1, nb);
    assert(q2 * (nb * (spb * res)) + b1 * (spb * res) + s1 * res + r0 == t)
        by (nonlinear_arith)
        requires
            t == res * q0 + r0,
            q0 == spb * q1 + s1,
            q1 == nb * q2 + b1,
    ;
}

} // verus!
