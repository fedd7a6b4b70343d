//! Musical-time core for an audio sequencing engine.
//!
//! Converts between an absolute integer tick count ([`ticks::TicksTime`]),
//! a human-readable bars/beats/sixteenths/ticks position ([`bars::BarsTime`]),
//! and a stream of fixed-size audio sample blocks
//! ([`drift::TicksDriftCorrection`]), without letting rounding error
//! accumulate over arbitrarily long playback sessions.

pub mod bars;
pub mod drift;
pub mod signature;
pub mod tempo;
pub mod ticks;
