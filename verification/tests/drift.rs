use musical_time::drift::TicksDriftCorrection;
use musical_time::signature::Signature;
use musical_time::tempo::Tempo;
use musical_time::ticks::TicksTime;

#[test]
pub fn ticks_drift_correction_new() {
    let correction = TicksDriftCorrection::new(Signature::new(4, 4), Tempo::new(60), 44100);
    let (num, den) = correction.get_ticks_per_sample();
    assert_eq!(num as f64 / den as f64, 0.08707482993197278);
    assert_eq!(correction.get_error_accumulated().0, 0);
    assert_eq!(correction.get_last_correction(), 0);
}

#[test]
pub fn ticks_drift_correction_next() {
    let mut correction = TicksDriftCorrection::new(Signature::new(4, 4), Tempo::new(60), 44100);
    let ticks = correction.next(100);
    assert_eq!(ticks, TicksTime::new(9));
    let ticks = correction.next(100);
    assert_eq!(ticks, TicksTime::new(9));
    let ticks = correction.next(100);
    assert_eq!(ticks, TicksTime::new(9));
    let ticks = correction.next(100);
    assert_eq!(ticks, TicksTime::new(8));
    let ticks = correction.next(100);
    assert_eq!(ticks, TicksTime::new(9));
}

#[test]
fn ticks_per_sample_exact_parts() {
    // One beat of 4/4 spans 4 * 960 ticks; at 60 bpm over 44100 Hz the rate
    // is (3840 * 60) / (60 * 44100) ticks per sample, held exactly.
    let correction = TicksDriftCorrection::new(Signature::new(4, 4), Tempo::new(60), 44100);
    assert_eq!(correction.get_ticks_per_sample(), (230400, 2646000));
}

#[test]
fn error_stays_below_one_tick() {
    let mut correction = TicksDriftCorrection::new(Signature::new(3, 8), Tempo::new(137), 48000);
    let (num, den) = correction.get_ticks_per_sample();
    let mut total_samples: u64 = 0;
    let mut total_ticks: u64 = 0;
    let mut block: u32 = 1;
    for _ in 0..5000 {
        total_samples += block as u64;
        total_ticks += correction.next(block).get_ticks();
        let (err, err_den) = correction.get_error_accumulated();
        assert_eq!(err_den, den);
        assert!(err.unsigned_abs() < den);
        block = block % 997 + 13;
    }
    // The running sum of deltas tracks the exact elapsed tick count to less
    // than one tick: |num * samples - den * ticks| < den, scaled by den.
    let exact = (num as i128) * (total_samples as i128);
    let handed_out = (den as i128) * (total_ticks as i128);
    assert!((exact - handed_out).unsigned_abs() < den as u128);
}

#[test]
fn last_correction_is_at_most_one_tick() {
    let mut correction = TicksDriftCorrection::new(Signature::new(4, 4), Tempo::new(60), 44100);
    let mut seen_nonzero = false;
    for _ in 0..100 {
        correction.next(100);
        let nudge = correction.get_last_correction();
        assert!(nudge == -1 || nudge == 0 || nudge == 1);
        seen_nonzero = seen_nonzero || nudge != 0;
    }
    assert!(seen_nonzero);
}

#[test]
fn identical_parameters_give_identical_sequences() {
    let mut a = TicksDriftCorrection::new(Signature::new(6, 8), Tempo::new(113), 96000);
    let mut b = TicksDriftCorrection::new(Signature::new(6, 8), Tempo::new(113), 96000);
    let mut block: u32 = 64;
    for _ in 0..2000 {
        assert_eq!(a.next(block), b.next(block));
        assert_eq!(a.get_error_accumulated(), b.get_error_accumulated());
        assert_eq!(a.get_last_correction(), b.get_last_correction());
        block = block % 4096 + 32;
    }
    assert_eq!(a.get_ticks_per_sample(), b.get_ticks_per_sample());
}

#[test]
fn fresh_instance_resets_error() {
    let mut correction = TicksDriftCorrection::new(Signature::new(4, 4), Tempo::new(60), 44100);
    for _ in 0..3 {
        correction.next(100);
    }
    assert_ne!(correction.get_error_accumulated().0, 0);
    let fresh = TicksDriftCorrection::new(Signature::new(4, 4), Tempo::new(60), 44100);
    assert_eq!(fresh.get_error_accumulated().0, 0);
    assert_eq!(fresh.get_last_correction(), 0);
}
