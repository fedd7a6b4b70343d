use vstd::prelude::*;
use vstd::arithmetic::div_mod::{lemma_fundamental_div_mod, lemma_mod_division_less_than_divisor};
use vstd::arithmetic::mul::lemma_mul_upper_bound;
use crate::bars::BarsTime;
use crate::signature::{ticks_per_beat, Signature};
use crate::tempo::{SampleRate, Tempo};
use crate::ticks::TicksTime;

verus! {

/// Largest ticks-per-sample numerator a corrector can hold: the ticks in one
/// beat (at most 16 sixteenths of 960 ticks) times the largest tempo.
pub const MAX_RATE_NUM: u64 = 16 * 960 * 65535;

/// Largest ticks-per-sample denominator a corrector can hold: seconds per
/// minute times the largest sample rate.
pub const MAX_RATE_DEN: u64 = 60 * 4294967295;

const SECONDS_PER_MINUTE: u64 = 60;

/// `n / d` rounded to the nearest integer, ties away from zero (`d > 0`).
pub open spec fn round_div(n: int, d: int) -> int
    recommends
        d > 0,
{
    if n >= 0 {
        (2 * n + d) / (2 * d)
    } else {
        -((2 * (-n) + d) / (2 * d))
    }
}

/// One step of the error-feedback rounding scheme, on exact rationals scaled
/// by the fixed denominator `den`: `num / den` is the ticks-per-sample rate
/// and `err / den` the error carried in from earlier blocks. Returns
/// `(delta, new_err, correction)`: the integer tick delta for a block of
/// `samples` samples, the scaled error carried out, and the whole-tick nudge
/// applied (zero unless the carried error reached one tick).
pub open spec fn drift_step(num: int, den: int, err: int, samples: int) -> (int, int, int)
    recommends
        den > 0,
{
    let raw = num * samples;
    let rounded = round_div(raw, den);
    let local = raw - rounded * den;
    let total = err + local;
    if total >= den || total <= -den {
        let correction = round_div(total, den);
        (rounded + correction, total - correction * den, correction)
    } else {
        (rounded, total, 0)
    }
}

/// [`drift_step`] threaded over a whole sequence of block sizes. Returns the
/// sequence of tick deltas and the scaled error left after the last block.
pub open spec fn drift_run(num: int, den: int, err: int, blocks: Seq<int>) -> (Seq<int>, int)
    recommends
        den > 0,
    decreases blocks.len(),
{
    if blocks.len() == 0 {
        (Seq::empty(), err)
    } else {
        let s = drift_step(num, den, err, blocks[0]);
        let rest = drift_run(num, den, s.1, blocks.drop_first());
        (seq![s.0] + rest.0, rest.1)
    }
}

/// The sum of a sequence of integers.
pub open spec fn seq_sum(s: Seq<int>) -> int
    decreases s.len(),
{
    if s.len() == 0 {
        0
    } else {
        s[0] + seq_sum(s.drop_first())
    }
}

/// A stateful converter from audio sample blocks to integer tick deltas whose
/// cumulative sum tracks true elapsed musical time to sub-tick accuracy
/// indefinitely. Constructed once per playback run from a fixed
/// [`Signature`]/[`Tempo`]/[`SampleRate`] triple and fed every block, in
/// arrival order, through [`TicksDriftCorrection::next`]; constructing a
/// fresh instance resets the accumulated error to zero.
///
/// The ticks-per-sample rate and the carried error are exact rationals over
/// the fixed denominator `60 * sample_rate`, so no rounding error ever enters
/// the state itself.
pub struct TicksDriftCorrection {
    rate_num: u64,
    rate_den: u64,
    error_num: i64,
    last_correction: i64,
}

impl TicksDriftCorrection {
    /// Numerator of the ticks-per-sample rate: ticks per beat times tempo.
    pub closed spec fn spec_rate_num(&self) -> u64 {
        self.rate_num
    }

    /// Denominator of the ticks-per-sample rate: 60 times the sample rate.
    pub closed spec fn spec_rate_den(&self) -> u64 {
        self.rate_den
    }

    /// The fractional-tick error carried between calls, scaled by
    /// [`TicksDriftCorrection::spec_rate_den`].
    pub closed spec fn spec_error_num(&self) -> i64 {
        self.error_num
    }

    /// The whole-tick nudge applied on the most recent call.
    pub closed spec fn spec_last_correction(&self) -> i64 {
        self.last_correction
    }

    /// Well-formed state: positive bounded rate, error strictly below one
    /// tick in magnitude, and the last nudge a whole tick at most.
    pub open spec fn wf(&self) -> bool {
        0 < self.spec_rate_num() <= MAX_RATE_NUM
            && 0 < self.spec_rate_den() <= MAX_RATE_DEN
            && -(self.spec_rate_den() as int) < (self.spec_error_num() as int)
            && (self.spec_error_num() as int) < (self.spec_rate_den() as int)
            && -1 <= self.spec_last_correction() <= 1
    }

    /// Builds a corrector for a session-fixed signature, tempo and sample
    /// rate. The ticks-per-sample rate is the tick span of exactly one beat
    /// (the tick encoding of the one-beat bar position) times the tempo, over
    /// 60 times the sample rate; the accumulated error and the last
    /// correction start at zero.
    pub fn new(signature: Signature, tempo: Tempo, sample_rate: SampleRate) -> (r:
        TicksDriftCorrection)
        requires
            signature.valid(),
            tempo.bpm >= 1,
            sample_rate >= 1,
        ensures
            r.wf(),
            r.spec_rate_num() == ticks_per_beat(signature) * tempo.bpm,
            r.spec_rate_den() == 60 * sample_rate,
            r.spec_error_num() == 0,
            r.spec_last_correction() == 0,
    {
        let one_beat: TicksTime = BarsTime::new(0, 1, 0, 0).to_ticks_time(signature);
        let beat_ticks: u64 = one_beat.get_ticks();
        assert(beat_ticks == ticks_per_beat(signature));
        assert(1 <= beat_ticks <= 15360);
        proof {
            lemma_mul_upper_bound(beat_ticks as int, 15360, tempo.bpm as int, 65535);
            assert((beat_ticks as int) * (tempo.bpm as int) >= 1) by (nonlinear_arith)
                requires
                    beat_ticks >= 1,
                    tempo.bpm >= 1,
            ;
        }
        TicksDriftCorrection {
            rate_num: beat_ticks * (tempo.get_bpm() as u64),
            rate_den: SECONDS_PER_MINUTE * (sample_rate as u64),
            error_num: 0,
            last_correction: 0,
        }
    }

    /// The exact ticks-per-sample rate, as a (numerator, denominator) pair.
    pub fn get_ticks_per_sample(&self) -> (r: (u64, u64))
        ensures
            r.0 == self.spec_rate_num(),
            r.1 == self.spec_rate_den(),
    {
        (self.rate_num, self.rate_den)
    }

    /// The exact fractional-tick error carried between calls, as a
    /// (numerator, denominator) pair; the numerator is strictly below the
    /// denominator in magnitude whenever the state is well formed.
    pub fn get_error_accumulated(&self) -> (r: (i64, u64))
        ensures
            r.0 == self.spec_error_num(),
            r.1 == self.spec_rate_den(),
    {
        (self.error_num, self.rate_den)
    }

    /// The whole-tick nudge applied on the most recent call (zero if that
    /// call needed none).
    pub fn get_last_correction(&self) -> (r: i64)
        ensures
            r == self.spec_last_correction(),
    {
        self.last_correction
    }

    /// Converts one audio block of `samples` samples into its integer tick
    /// delta, carrying the sub-tick rounding error into the next call exactly
    /// as [`drift_step`] states: the block's real-valued tick span is rounded
    /// to the nearest integer (ties away from zero), the local rounding error
    /// joins the carried error, and whenever the carried error reaches one
    /// whole tick it is moved into the returned delta. Never fails and keeps
    /// the carried error strictly below one tick.
    pub fn next(&mut self, samples: u32) -> (delta: TicksTime)
        requires
            old(self).wf(),
        ensures
            final(self).wf(),
            final(self).spec_rate_num() == old(self).spec_rate_num(),
            final(self).spec_rate_den() == old(self).spec_rate_den(),
            ({
                let s = drift_step(old(self).spec_rate_num() as int,
                    old(self).spec_rate_den() as int, old(self).spec_error_num() as int,
                    samples as int);
                delta@ == s.0 && final(self).spec_error_num() == s.1
                    && final(self).spec_last_correction() == s.2
            }),
    {
        let num: u64 = self.rate_num;
        let den: u64 = self.rate_den;
        proof {
            lemma_mul_upper_bound(num as int, MAX_RATE_NUM as int, samples as int,
                u32::MAX as int);
        }
        let raw: u64 = num * (samples as u64);
        let rounded: u64 = (2 * raw + den) / (2 * den);
        proof {
            lemma_round_rem(raw as int, den as int);
            assert(rounded == round_div(raw as int, den as int));
        }
        let local: i64 = (raw as i64) - ((rounded * den) as i64);
        let total: i64 = self.error_num + local;
        let den_i: i64 = den as i64;
        proof {
            lemma_correction_is_unit(total as int, den as int);
        }
        if total >= den_i {
            self.last_correction = 1;
            self.error_num = total - den_i;
            TicksTime::new(rounded + 1)
        } else if total <= -den_i {
            self.last_correction = -1;
            self.error_num = total + den_i;
            proof {
                assert(raw < rounded * den);
                assert(rounded >= 1) by (nonlinear_arith)
                    requires
                        (rounded as int) * (den as int) > 0,
                        den >= 1,
                ;
            }
            TicksTime::new(rounded - 1)
        } else {
            self.last_correction = 0;
            self.error_num = total;
            TicksTime::new(rounded)
        }
    }
}

/// Accounting for one step: the scaled error carried out is exactly the
/// scaled error carried in, plus the block's exact scaled tick span, minus
/// the returned delta in whole ticks — and it stays strictly below one tick
/// in magnitude, so no step ever loses or invents time.
pub proof fn lemma_step_accounting(num: int, den: int, err: int, samples: int)
    requires
        den > 0,
        num >= 0,
        samples >= 0,
        -den < err < den,
    ensures
        ({
            let s = drift_step(num, den, err, samples);
            s.1 == err + num * samples - den * s.0 && -den < s.1 < den && s.0 >= 0
        }),
{
    let raw = num * samples;
    assert(num * samples >= 0) by (nonlinear_arith)
        requires
            num >= 0,
            samples >= 0,
    ;
    lemma_round_rem(raw, den);
    let rounded = round_div(raw, den);
    let local = raw - rounded * den;
    let total = err + local;
    lemma_correction_is_unit(total, den);
    if total >= den || total <= -den {
        let c = round_div(total, den);
        if total <= -den {
            assert(rounded >= 1) by (nonlinear_arith)
                requires
                    rounded * den > 0,
                    den > 0,
            ;
        }
        assert(total - c * den == err + num * samples - den * (rounded + c)) by (nonlinear_arith)
            requires
                raw == num * samples,
                local == raw - rounded * den,
                total == err + local,
        ;
    } else {
        assert(total == err + num * samples - den * rounded) by (nonlinear_arith)
            requires
                raw == num * samples,
                local == raw - rounded * den,
                total == err + local,
        ;
    }
}

/// Prepending one element adds it to the sum.
proof fn lemma_seq_sum_cons(d: int, t: Seq<int>)
    ensures
        seq_sum(seq![d] + t) == d + seq_sum(t),
{
    let s = seq![d] + t;
    assert(s.drop_first() =~= t);
    assert(s[0] == d);
}

/// Drift bound: for any rate and any finite sequence of positive block
/// sizes, the scaled carried error stays strictly below one tick after every
/// call, and it accounts exactly for the difference between the exact scaled
/// elapsed tick count and the whole ticks handed out. For a freshly
/// constructed corrector (`err == 0`) this says the sum of all returned
/// deltas differs from ticks-per-sample times the total sample count by less
/// than one tick, for any number of blocks.
pub proof fn lemma_drift_bound(num: int, den: int, err: int, blocks: Seq<int>)
    requires
        den > 0,
        num >= 0,
        -den < err < den,
        forall|i: int| 0 <= i < blocks.len() ==> blocks[i] >= 1,
    ensures
        ({
            let r = drift_run(num, den, err, blocks);
            -den < r.1 < den && r.1 == err + num * seq_sum(blocks) - den * seq_sum(r.0)
                && r.0.len() == blocks.len() && (forall|i: int|
                0 <= i < r.0.len() ==> r.0[i] >= 0)
        }),
    decreases blocks.len(),
{
    let r = drift_run(num, den, err, blocks);
    if blocks.len() == 0 {
        assert(seq_sum(blocks) == 0);
        assert(num * 0 == 0 && den * 0 == 0) by (nonlinear_arith);
    } else {
        let b0 = blocks[0];
        let tail = blocks.drop_first();
        let s = drift_step(num, den, err, b0);
        let rest = drift_run(num, den, s.1, tail);
        lemma_step_accounting(num, den, err, b0);
        assert(forall|i: int| 0 <= i < tail.len() ==> tail[i] >= 1);
        lemma_drift_bound(num, den, s.1, tail);
        lemma_seq_sum_cons(s.0, rest.0);
        assert(num * (b0 + seq_sum(tail)) == num * b0 + num * seq_sum(tail)
            && den * (s.0 + seq_sum(rest.0)) == den * s.0 + den * seq_sum(rest.0))
            by (nonlinear_arith);
        assert forall|i: int| 0 <= i < r.0.len() implies r.0[i] >= 0 by {
            if i > 0 {
                assert(r.0[i] == rest.0[i - 1]);
            }
        }
    }
}

/// The drift bound holds after every call, not only at a session's end: every
/// prefix of the block sequence leaves a carried error strictly below one
/// tick, and that error accounts exactly for the ticks handed out so far.
pub proof fn lemma_drift_bound_every_prefix(num: int, den: int, err: int, blocks: Seq<int>)
    requires
        den > 0,
        num >= 0,
        -den < err < den,
        forall|i: int| 0 <= i < blocks.len() ==> blocks[i] >= 1,
    ensures
        forall|k: int|
            0 <= k <= blocks.len() ==> ({
                let r = drift_run(num, den, err, #[trigger] blocks.subrange(0, k));
                -den < r.1 < den && r.1 == err + num * seq_sum(blocks.subrange(0, k)) - den
                    * seq_sum(r.0)
            }),
{
    assert forall|k: int| 0 <= k <= blocks.len() implies ({
        let r = drift_run(num, den, err, #[trigger] blocks.subrange(0, k));
        -den < r.1 < den && r.1 == err + num * seq_sum(blocks.subrange(0, k)) - den * seq_sum(r.0)
    }) by {
        let prefix = blocks.subrange(0, k);
        assert(forall|i: int| 0 <= i < prefix.len() ==> prefix[i] >= 1);
        lemma_drift_bound(num, den, err, prefix);
    }
}

/// Determinism: two correctors with identical rate and identical carried
/// error, fed the identical sequence of block sizes, produce the identical
/// delta sequence and the identical carried error — after every prefix of the
/// sequence, not only at its end. There is no other input: the scheme uses no
/// randomness and no clock.
pub proof fn lemma_determinism(
    num_a: int,
    den_a: int,
    err_a: int,
    num_b: int,
    den_b: int,
    err_b: int,
    blocks: Seq<int>,
)
    requires
        num_a == num_b,
        den_a == den_b,
        err_a == err_b,
    ensures
        forall|k: int|
            0 <= k <= blocks.len() ==> drift_run(num_a, den_a, err_a, blocks.subrange(0, k))
                == drift_run(num_b, den_b, err_b, blocks.subrange(0, k)),
{
}

/// For a non-negative dividend, rounding to nearest leaves a remainder of at
/// most half the divisor: `raw - round_div(raw, d) * d` lies in `[-d/2, d/2)`.
proof fn lemma_round_rem(raw: int, d: int)
    requires
        raw >= 0,
        d > 0,
    ensures
        round_div(raw, d) >= 0,
        -d <= 2 * (raw - round_div(raw, d) * d) < d,
        round_div(raw, d) * d <= raw + d,
{
    let q = (2 * raw + d) / (2 * d);
    let r = (2 * raw + d) % (2 * d);
    lemma_fundamental_div_mod(2 * raw + d, 2 * d);
    lemma_mod_division_less_than_divisor(2 * raw + d, 2 * d);
    assert(q >= 0 && 2 * (raw - q * d) == r - d && q * d <= raw + d) by (nonlinear_arith)
        requires
            2 * raw + d == 2 * d * q + r,
            0 <= r < 2 * d,
            raw >= 0,
            d > 0,
    ;
}

/// A carried error whose magnitude lies in `[d, 3d/2)` rounds to exactly one
/// whole tick of its own sign.
proof fn lemma_correction_is_unit(total: int, d: int)
    requires
        d > 0,
        2 * total < 3 * d,
        -3 * d < 2 * total,
    ensures
        total >= d ==> round_div(total, d) == 1,
        total <= -d ==> round_div(total, d) == -1,
{
    if total >= d {
        assert((2 * total + d) / (2 * d) == 1) by (nonlinear_arith)
            requires
                d > 0,
                total >= d,
                2 * total < 3 * d,
        ;
    } else if total <= -d {
        assert((2 * (-total) + d) / (2 * d) == 1) by (nonlinear_arith)
            requires
                d > 0,
                total <= -d,
                -3 * d < 2 * total,
        ;
    }
}

} // verus!
