use vstd::prelude::*;

verus! {

/// Number of ticks in one sixteenth note. Fixed for the lifetime of the
/// process; the tick is the smallest unit of musical time in this library.
pub const TICKS_RESOLUTION: u64 = 960;

/// An absolute musical position: a non-negative count of ticks since session
/// start. Immutable once constructed, independent of any time signature, and
/// comparable and orderable across the whole session.
#[derive(Clone, Copy, Debug, PartialEq, Eq, Structural, PartialOrd, Ord, Hash)]
pub struct TicksTime {
    ticks: u64,
}

impl View for TicksTime {
    type V = u64;

    closed spec fn view(&self) -> u64 {
        self.ticks
    }
}

impl TicksTime {
    /// Constructs a position from a literal tick count.
    pub fn new(ticks: u64) -> (r: TicksTime)
        ensures
            r@ == ticks,
    {
        TicksTime { ticks }
    }

    /// Reads the tick count back.
    pub fn get_ticks(&self) -> (r: u64)
        ensures
            r == self@,
    {
        self.ticks
    }
}

} // verus!
