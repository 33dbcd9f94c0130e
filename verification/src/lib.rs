//! Line splitting for byte chunks that arrive at uneven boundaries.
//!
//! A source hands over byte chunks whose boundaries have nothing to do with
//! line boundaries. [`Lines`] buffers them and gives back one decoded line per
//! pull, delimited by LF with an optional CR before it.

pub mod split;
pub mod utf8;
pub mod lines;
pub mod laws;

pub use lines::{strings, Event, Lines, Phase, Pulled};
