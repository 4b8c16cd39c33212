use vstd::prelude::*;

verus! {

/// Why a configuration could not be turned into a signal generator.
#[derive(Clone, Copy, Debug, PartialEq, Eq, Structural)]
pub enum Error {
    /// The navigation source holds no ephemeris set.
    NoEphemeris,
    /// No navigation source was given.
    NavigationNotSet,
    /// More than one positioning input was given.
    DuplicatePosition,
    /// The position sequence is empty.
    WrongPositions,
    /// The duration is negative.
    InvalidDuration,
    /// The sampling frequency is below 1 MHz.
    InvalidSamplingFrequency,
    /// The data format is not one of 1, 8 or 16 bits.
    InvalidDataFormat,
    /// No data format was given.
    DataFormatNotSet,
    /// The leap-second week number is negative.
    InvalidGpsWeek,
    /// The leap-second day number is outside `1..=7`.
    InvalidGpsDay,
    /// The leap-second delta is outside `-128..=127`.
    InvalidDeltaLeapSecond,
    /// The start time lies outside the ephemeris window.
    InvalidStartTime,
    /// No ephemeris set has a TOC less than an hour from the start time.
    NoCurrentEphemerides,
    /// An input could not be parsed, or does not have the shape of its kind.
    ParsingError,
}

} // verus!
