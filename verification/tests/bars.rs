use musical_time::bars::BarsTime;
use musical_time::signature::Signature;
use musical_time::ticks::{TicksTime, TICKS_RESOLUTION};

#[test]
pub fn new() {
    let time = BarsTime::new(10, 1, 2, 100);
    assert_eq!(time.get_bars(), 10);
    assert_eq!(time.get_beats(), 1);
    assert_eq!(time.get_sixteenths(), 2);
    assert_eq!(time.get_ticks(), 100);
}

#[test]
pub fn from_ticks_time() {
    let ticks = TicksTime::new(
        TICKS_RESOLUTION * 4 * 3 * 10 // 10 bars
            + TICKS_RESOLUTION * 4 * 2 // 2 beats
            + TICKS_RESOLUTION // 1 sixteenth
            + 30, // 30 ticks
    );

    let time = BarsTime::from_ticks_time(ticks, Signature::new(3, 4));
    assert_eq!(time.get_bars(), 10);
    assert_eq!(time.get_beats(), 2);
    assert_eq!(time.get_sixteenths(), 1);
    assert_eq!(time.get_ticks(), 30);
}

#[test]
pub fn to_ticks_time() {
    let signature = Signature::new(3, 4);
    let ticks = TicksTime::new(123456789);
    let time = BarsTime::from_ticks_time(ticks, signature);
    let ticks = time.to_ticks_time(signature);
    assert_eq!(ticks.get_ticks(), 123456789);
}

#[test]
fn to_ticks_time_from_literal_components() {
    // 4/4: one beat is 4 sixteenths, 3840 ticks; one bar is 15360 ticks.
    let time = BarsTime::new(1, 2, 3, 4);
    let ticks = time.to_ticks_time(Signature::new(4, 4));
    assert_eq!(ticks.get_ticks(), 15360 + 2 * 3840 + 3 * 960 + 4);
}

#[test]
fn round_trip_zero_ticks() {
    let signature = Signature::new(4, 4);
    let time = BarsTime::from_ticks_time(TicksTime::new(0), signature);
    assert_eq!(time.get_bars(), 0);
    assert_eq!(time.get_beats(), 0);
    assert_eq!(time.get_sixteenths(), 0);
    assert_eq!(time.get_ticks(), 0);
    assert_eq!(time.to_ticks_time(signature).get_ticks(), 0);
}

#[test]
fn round_trip_every_note_value() {
    for note_value in [1u16, 2, 4, 8, 16] {
        let signature = Signature::new(7, note_value);
        for t in [0u64, 1, 959, 960, 3841, 123456789] {
            let ticks = TicksTime::new(t);
            let time = BarsTime::from_ticks_time(ticks, signature);
            assert_eq!(time.to_ticks_time(signature).get_ticks(), t);
        }
    }
}

#[test]
fn round_trip_largest_bar_component() {
    // 1/16: one sixteenth per beat, one beat per bar, so one bar is 960
    // ticks; the largest decomposable count has 65535 full bars.
    let signature = Signature::new(1, 16);
    let largest = 960 * 65536 - 1;
    let time = BarsTime::from_ticks_time(TicksTime::new(largest), signature);
    assert_eq!(time.get_bars(), 65535);
    assert_eq!(time.get_beats(), 0);
    assert_eq!(time.get_sixteenths(), 0);
    assert_eq!(time.get_ticks(), 959);
    assert_eq!(time.to_ticks_time(signature).get_ticks(), largest);
}

#[test]
fn from_ticks_time_is_normalized() {
    let signature = Signature::new(5, 8);
    let time = BarsTime::from_ticks_time(TicksTime::new(424242424), signature);
    assert!(time.get_beats() < 5);
    assert!(time.get_sixteenths() < 2);
    assert!((time.get_ticks() as u64) < TICKS_RESOLUTION);
}

#[test]
fn ticks_time_orders_by_count() {
    assert!(TicksTime::new(3) < TicksTime::new(4));
    assert_eq!(TicksTime::new(5), TicksTime::new(5));
    assert_ne!(TicksTime::new(5), TicksTime::new(6));
}
