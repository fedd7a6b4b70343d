use vstd::prelude::*;
use crate::ticks::TICKS_RESOLUTION;

verus! {

/// An immutable time signature: `num_beats` beats per bar, each beat one
/// `note_value`-th note (3/4 is `Signature { num_beats: 3, note_value: 4 }`).
///
/// The type itself performs no validation; consumers require [`Signature::valid`],
/// which holds exactly when both components are positive and `note_value`
/// evenly divides 16, so that the sixteenth-based decomposition is exact.
#[derive(Clone, Copy, Debug, PartialEq, Eq, Structural, Hash)]
pub struct Signature {
    pub num_beats: u16,
    pub note_value: u16,
}

impl Signature {
    /// A signature usable for sixteenth-based decomposition: positive beat
    /// count, and a beat unit that evenly divides a whole note's sixteen
    /// sixteenths.
    pub open spec fn valid(&self) -> bool {
        self.num_beats >= 1 && (self.note_value == 1 || self.note_value == 2
            || self.note_value == 4 || self.note_value == 8 || self.note_value == 16)
    }

    pub fn new(num_beats: u16, note_value: u16) -> (r: Signature)
        ensures
            r.num_beats == num_beats,
            r.note_value == note_value,
    {
        Signature { num_beats, note_value }
    }

    pub fn get_num_beats(&self) -> (r: u16)
        ensures
            r == self.num_beats,
    {
        self.num_beats
    }

    pub fn get_note_value(&self) -> (r: u16)
        ensures
            r == self.note_value,
    {
        self.note_value
    }
}

/// How many sixteenth notes one beat spans: 16 divided by the beat unit.
pub open spec fn sixteenths_per_beat(signature: Signature) -> int {
    16int / (signature.note_value as int)
}

/// How many ticks one beat spans.
pub open spec fn ticks_per_beat(signature: Signature) -> int {
    sixteenths_per_beat(signature) * (TICKS_RESOLUTION as int)
}

/// How many ticks one bar spans.
pub open spec fn ticks_per_bar(signature: Signature) -> int {
    (signature.num_beats as int) * ticks_per_beat(signature)
}

} // verus!
