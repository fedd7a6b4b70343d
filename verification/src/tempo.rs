use vstd::prelude::*;

verus! {

/// An immutable audio sample rate, in samples per second. Must be positive;
/// consumers of a rate require that.
pub type SampleRate = u32;

/// An immutable tempo, in whole beats per minute. Must be positive; consumers
/// of a tempo require that.
#[derive(Clone, Copy, Debug, PartialEq, Eq, Structural, Hash)]
pub struct Tempo {
    pub bpm: u16,
}

impl Tempo {
    pub fn new(bpm: u16) -> (r: Tempo)
        ensures
            r.bpm == bpm,
    {
        Tempo { bpm }
    }

    pub fn get_bpm(&self) -> (r: u16)
        ensures
            r == self.bpm,
    {
        self.bpm
    }
}

} // verus!
