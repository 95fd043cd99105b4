//! A countdown timer and a stopwatch that render a live `H:M:S` clock line.
//!
//! The library decides what is shown and when a run is over; the caller owns
//! the sink and the one-second wait between two lines.

pub mod display;
pub mod stopwatch;
pub mod timer;

pub use timer::TimerStruct;
