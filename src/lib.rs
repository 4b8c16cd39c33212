//! Configuration, time alignment and bit-level building blocks of a GPS L1 C/A
//! baseband signal synthesizer, with the radio front end's request encoding.

pub mod alignment;
pub mod builder;
pub mod cacode;
pub mod clock;
pub mod constants;
pub mod datetime;
pub mod ephemeris;
pub mod error;
pub mod formatter;
pub mod hackrf;
pub mod navmsg;
pub mod nco;
pub mod subframe;
pub mod visibility;

pub use builder::{SignalGenerator, SignalGeneratorBuilder};
pub use error::Error;
