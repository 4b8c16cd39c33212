use vstd::prelude::*;

use crate::alignment::{align_ephemerides, alignment_result, is_aligned};
use crate::clock::{lower_of, lowercase, parse_utc, utc_now, utc_time_of_text};
use crate::datetime::{date_to_gps, gps_of_seconds, seconds_since_epoch, DateTime, GpsTime};
use crate::ephemeris::NavigationData;
use crate::error::Error;

verus! {

/// Sampling frequency, in Hz, used when none is given.
pub const DEFAULT_FREQUENCY: u64 = 2600000;

/// Lowest accepted sampling frequency, in Hz.
pub const MIN_FREQUENCY: u64 = 1000000;

/// Interval between position epochs, in milliseconds, used when none is given.
pub const DEFAULT_SAMPLE_RATE_MS: u32 = 100;

/// Width of one position epoch in milliseconds of duration.
pub const EPOCH_MS: i64 = 100;

/// A receiver position in Earth-centred, Earth-fixed coordinates, in millimetres.
#[derive(Clone, Copy, Debug, PartialEq, Eq, Structural)]
pub struct Ecef {
    pub x: i64,
    pub y: i64,
    pub z: i64,
}

/// X of the position used when none is given: 35.681298 N, 139.766247 E, 10 m.
pub const DEFAULT_POSITION_X: i64 = -3959617482;

/// Y of the position used when none is given.
pub const DEFAULT_POSITION_Y: i64 = 3350136615;

/// Z of the position used when none is given.
pub const DEFAULT_POSITION_Z: i64 = 3699531459;

/// The position used when none is given.
pub open spec fn default_position() -> Ecef {
    Ecef { x: DEFAULT_POSITION_X, y: DEFAULT_POSITION_Y, z: DEFAULT_POSITION_Z }
}

/// Whether the receiver stands still or follows a trajectory.
#[derive(Clone, Copy, Debug, PartialEq, Eq, Structural)]
pub enum MotionMode {
    Static,
    Dynamic,
}

/// Layout of the I/Q samples in the output stream.
#[derive(Clone, Copy, Debug, PartialEq, Eq, Structural)]
pub enum DataFormat {
    /// One sign bit per component, four pairs per byte.
    Bits1,
    /// One signed byte per component.
    Bits8,
    /// One signed little-endian 16-bit word per component.
    Bits16,
}

/// A fully checked simulation set-up, ready for the sample loop.
#[derive(Clone, Debug)]
pub struct SignalGenerator {
    /// The navigation source, aligned with the start time.
    pub navigation: NavigationData,
    /// Index of the ephemeris set in use at the start.
    pub valid_ephemerides_index: usize,
    /// Receiver positions, one per epoch (a single one when static).
    pub positions: Vec<Ecef>,
    /// Number of position epochs to simulate.
    pub simulation_step_count: u64,
    /// GPS time at which the simulation starts.
    pub receiver_gps_time: GpsTime,
    pub mode: MotionMode,
    /// Elevation mask in degrees.
    pub elevation_mask: i32,
    /// Sampling frequency in Hz.
    pub sample_frequency: u64,
    /// Interval between position epochs in milliseconds.
    pub sample_rate: u32,
    pub data_format: DataFormat,
    /// Fixed gain in dB that replaces the path-loss model.
    pub fixed_gain: Option<i32>,
    pub output_file: Option<String>,
    pub verbose: bool,
}

/// The settings of a simulation, gathered one at a time and checked by `build`.
#[derive(Clone, Debug)]
pub struct SignalGeneratorBuilder {
    pub output_file: Option<String>,
    pub navigation: Option<NavigationData>,
    /// Leap-second data: week number, day number, delta.
    pub leap: Option<Vec<i32>>,
    pub positions: Option<Vec<Ecef>>,
    /// Interval between position epochs in milliseconds.
    pub sample_rate: Option<u32>,
    pub mode: Option<MotionMode>,
    /// Duration in milliseconds.
    pub duration: Option<i64>,
    /// Sampling frequency in Hz.
    pub frequency: Option<u64>,
    pub time_override: Option<bool>,
    pub receiver_gps_time: Option<GpsTime>,
    pub data_format: Option<DataFormat>,
    /// Fixed gain in dB.
    pub path_loss: Option<i32>,
    pub ionospheric_disable: Option<bool>,
    pub verbose: Option<bool>,
}

/// The first leap-second value out of range, in the order day, week, delta.
pub open spec fn leap_error(leap: Seq<i32>) -> Option<Error> {
    if !(1 <= leap[1] <= 7) {
        Some(Error::InvalidGpsDay)
    } else if leap[0] < 0 {
        Some(Error::InvalidGpsWeek)
    } else if !(-128 <= leap[2] <= 127) {
        Some(Error::InvalidDeltaLeapSecond)
    } else {
        None
    }
}

/// Number of position epochs in a duration: the duration in tenths of a
/// second, rounded half up.
pub open spec fn duration_steps(ms: int) -> int {
    (ms + EPOCH_MS / 2) / (EPOCH_MS as int)
}

impl SignalGeneratorBuilder {
    /// The set-up `build` can accept: a non-empty, well-formed navigation
    /// source, a leap triple, and a well-formed start time.
    pub open spec fn wf(&self) -> bool {
        &&& self.navigation matches Some(n) ==> n.wf() && n.count >= 1
        &&& self.leap matches Some(l) ==> l@.len() >= 3
        &&& self.receiver_gps_time matches Some(g) ==> g.wf()
    }

    /// Nothing is set.
    pub open spec fn is_unset(&self) -> bool {
        &&& self.output_file is None
        &&& self.navigation is None
        &&& self.leap is None
        &&& self.positions is None
        &&& self.sample_rate is None
        &&& self.mode is None
        &&& self.duration is None
        &&& self.frequency is None
        &&& self.time_override is None
        &&& self.receiver_gps_time is None
        &&& self.data_format is None
        &&& self.path_loss is None
        &&& self.ionospheric_disable is None
        &&& self.verbose is None
    }

    /// The first error that `build` finds before it aligns the navigation source.
    pub open spec fn setup_error(&self) -> Option<Error> {
        if self.navigation is None {
            Some(Error::NavigationNotSet)
        } else if self.leap is Some && leap_error(self.leap->Some_0@) is Some {
            leap_error(self.leap->Some_0@)
        } else if self.positions matches Some(p) && p@.len() == 0 {
            Some(Error::WrongPositions)
        } else if self.duration matches Some(d) && d < 0 {
            Some(Error::InvalidDuration)
        } else {
            None
        }
    }

    /// The positions to simulate: those given, else the default position.
    pub open spec fn positions_view(&self) -> Seq<Ecef> {
        match self.positions {
            Some(p) => p@,
            None => seq![default_position()],
        }
    }

    /// Static unless a trajectory of more than one position was given.
    pub open spec fn mode_view(&self) -> MotionMode {
        match self.positions {
            Some(p) => if p@.len() == 1 {
                MotionMode::Static
            } else {
                match self.mode {
                    Some(m) => m,
                    None => MotionMode::Static,
                }
            },
            None => MotionMode::Static,
        }
    }

    /// Number of epochs: the duration's when static, the smaller of the
    /// duration's and the trajectory's length when moving, the trajectory's
    /// length when no duration is given.
    pub open spec fn step_count_view(&self) -> int {
        let n = self.positions_view().len() as int;
        match self.duration {
            Some(d) => if self.mode_view() == MotionMode::Static {
                duration_steps(d as int)
            } else if n <= duration_steps(d as int) {
                n
            } else {
                duration_steps(d as int)
            },
            None => n,
        }
    }

    /// The navigation source with the leap-second and ionospheric settings applied.
    pub open spec fn prepared_navigation(&self) -> NavigationData {
        let n = self.navigation->Some_0;
        let iono = match self.leap {
            Some(l) => crate::ephemeris::IonoUtc {
                leapen: true,
                wnlsf: l@[0],
                day_number: l@[1],
                dtlsf: l@[2],
                ..n.iono_utc
            },
            None => n.iono_utc,
        };
        let enable = match self.ionospheric_disable {
            Some(d) => !d,
            None => true,
        };
        NavigationData {
            iono_utc: crate::ephemeris::IonoUtc { enable, ..iono },
            ..n
        }
    }

    pub open spec fn override_view(&self) -> bool {
        match self.time_override {
            Some(b) => b,
            None => false,
        }
    }
}

impl Default for SignalGeneratorBuilder {
    fn default() -> (r: Self)
        ensures
            r.is_unset(),
    {
        SignalGeneratorBuilder {
            output_file: None,
            navigation: None,
            leap: None,
            positions: None,
            sample_rate: None,
            mode: None,
            duration: None,
            frequency: None,
            time_override: None,
            receiver_gps_time: None,
            data_format: None,
            path_loss: None,
            ionospheric_disable: None,
            verbose: None,
        }
    }
}

/// The leap-second values out of range, in the order week, day, delta: what
/// deserves a warning when the values are given, before `build` refuses them.
pub fn leap_issues(leap: &Vec<i32>) -> (r: Vec<Error>)
    requires
        leap@.len() >= 3,
    ensures
        r@ == seq![Error::InvalidGpsWeek].take(if leap@[0] < 0 { 1 } else { 0 }) + seq![
            Error::InvalidGpsDay,
        ].take(if 1 <= leap@[1] <= 7 { 0 } else { 1 }) + seq![Error::InvalidDeltaLeapSecond].take(
            if -128 <= leap@[2] <= 127 { 0 } else { 1 },
        ),
{
    let mut r: Vec<Error> = Vec::new();
    if leap[0] < 0 {
        r.push(Error::InvalidGpsWeek);
    }
    if !(1 <= leap[1] && leap[1] <= 7) {
        r.push(Error::InvalidGpsDay);
    }
    if !(-128 <= leap[2] && leap[2] <= 127) {
        r.push(Error::InvalidDeltaLeapSecond);
    }
    assert(r@ =~= seq![Error::InvalidGpsWeek].take(if leap@[0] < 0 { 1 } else { 0 }) + seq![
        Error::InvalidGpsDay,
    ].take(if 1 <= leap@[1] <= 7 { 0 } else { 1 }) + seq![Error::InvalidDeltaLeapSecond].take(
        if -128 <= leap@[2] <= 127 { 0 } else { 1 },
    ));
    r
}

impl SignalGeneratorBuilder {
    /// Sets the navigation source. A source without ephemeris sets is refused
    /// with `NoEphemeris`, one without the shape of a table with `ParsingError`.
    pub fn navigation_data(self, data: Option<NavigationData>) -> (r: Result<Self, Error>)
        ensures
            match data {
                None => r == Ok::<Self, Error>(self),
                Some(d) => if d.count == 0 {
                    r == Err::<Self, Error>(Error::NoEphemeris)
                } else if !d.wf() {
                    r == Err::<Self, Error>(Error::ParsingError)
                } else {
                    r == Ok::<Self, Error>(SignalGeneratorBuilder { navigation: Some(d), ..self })
                },
            },
    {
        match data {
            None => Ok(self),
            Some(d) => {
                if d.count == 0 {
                    Err(Error::NoEphemeris)
                } else if !d.is_well_formed() {
                    Err(Error::ParsingError)
                } else {
                    Ok(SignalGeneratorBuilder { navigation: Some(d), ..self })
                }
            },
        }
    }

    /// Sets whether the ephemerides are moved to the start time.
    pub fn time_override(self, time_override: Option<bool>) -> (r: Self)
        ensures
            r == (SignalGeneratorBuilder { time_override, ..self }),
    {
        SignalGeneratorBuilder { time_override, ..self }
    }

    /// Sets the start time from a civil UTC time. A time before the GPS epoch
    /// or after the last supported year is refused with `InvalidStartTime`.
    pub fn with_start_time(self, t: DateTime) -> (r: Result<Self, Error>)
        requires
            t.wf(),
        ensures
            t.in_gps_era() ==> r == Ok::<Self, Error>(
                SignalGeneratorBuilder {
                    receiver_gps_time: Some(gps_of_seconds(seconds_since_epoch(t))),
                    ..self
                },
            ),
            !t.in_gps_era() ==> r == Err::<Self, Error>(Error::InvalidStartTime),
            t.in_gps_era() ==> gps_of_seconds(seconds_since_epoch(t)).wf(),
    {
        match date_to_gps(&t) {
            Some(g) => Ok(SignalGeneratorBuilder { receiver_gps_time: Some(g), ..self }),
            None => Err(Error::InvalidStartTime),
        }
    }

    /// Sets the duration in milliseconds.
    pub fn duration(self, duration: Option<i64>) -> (r: Self)
        ensures
            r == (SignalGeneratorBuilder { duration, ..self }),
    {
        SignalGeneratorBuilder { duration, ..self }
    }

    /// Sets whether the ionospheric correction is switched off.
    pub fn ionospheric_disable(self, disable: Option<bool>) -> (r: Self)
        ensures
            r == (SignalGeneratorBuilder { ionospheric_disable: disable, ..self }),
    {
        SignalGeneratorBuilder { ionospheric_disable: disable, ..self }
    }

    /// Sets the leap-second data: week number, day number and delta.
    pub fn leap(self, leap: Option<Vec<i32>>) -> (r: Self)
        requires
            leap matches Some(l) ==> l@.len() >= 3,
        ensures
            r == (SignalGeneratorBuilder { leap, ..self }),
    {
        SignalGeneratorBuilder { leap, ..self }
    }

    /// Sets the data format from its width in bits: 1, 8 or 16.
    pub fn data_format(self, data_format: Option<usize>) -> (r: Result<Self, Error>)
        ensures
            match data_format {
                None => r == Ok::<Self, Error>(self),
                Some(1) => r == Ok::<Self, Error>(
                    SignalGeneratorBuilder { data_format: Some(DataFormat::Bits1), ..self },
                ),
                Some(8) => r == Ok::<Self, Error>(
                    SignalGeneratorBuilder { data_format: Some(DataFormat::Bits8), ..self },
                ),
                Some(16) => r == Ok::<Self, Error>(
                    SignalGeneratorBuilder { data_format: Some(DataFormat::Bits16), ..self },
                ),
                Some(_) => r == Err::<Self, Error>(Error::InvalidDataFormat),
            },
    {
        match data_format {
            None => Ok(self),
            Some(1) => Ok(SignalGeneratorBuilder { data_format: Some(DataFormat::Bits1), ..self }),
            Some(8) => Ok(SignalGeneratorBuilder { data_format: Some(DataFormat::Bits8), ..self }),
            Some(16) => Ok(SignalGeneratorBuilder { data_format: Some(DataFormat::Bits16), ..self }),
            Some(_) => Err(Error::InvalidDataFormat),
        }
    }

    /// Sets the output file's path.
    pub fn output_file(self, file: Option<String>) -> (r: Self)
        ensures
            r == (SignalGeneratorBuilder { output_file: file, ..self }),
    {
        SignalGeneratorBuilder { output_file: file, ..self }
    }

    /// Sets the sampling frequency in Hz; below 1 MHz it is refused.
    pub fn frequency(self, frequency: Option<usize>) -> (r: Result<Self, Error>)
        ensures
            match frequency {
                None => r == Ok::<Self, Error>(self),
                Some(f) => if f >= MIN_FREQUENCY {
                    r == Ok::<Self, Error>(SignalGeneratorBuilder { frequency: Some(f as u64), ..self })
                } else {
                    r == Err::<Self, Error>(Error::InvalidSamplingFrequency)
                },
            },
    {
        match frequency {
            None => Ok(self),
            Some(f) => {
                if f as u64 >= MIN_FREQUENCY {
                    Ok(SignalGeneratorBuilder { frequency: Some(f as u64), ..self })
                } else {
                    Err(Error::InvalidSamplingFrequency)
                }
            },
        }
    }

    /// Sets a static position. Refused with `DuplicatePosition` when positions
    /// were already set.
    pub fn location_ecef(self, location: Option<Ecef>) -> (r: Result<Self, Error>)
        ensures
            match location {
                None => r == Ok::<Self, Error>(self),
                Some(p) => if self.positions is Some {
                    r == Err::<Self, Error>(Error::DuplicatePosition)
                } else {
                    &&& r is Ok
                    &&& r->Ok_0 == (SignalGeneratorBuilder {
                        mode: Some(MotionMode::Static),
                        positions: r->Ok_0.positions,
                        ..self
                    })
                    &&& r->Ok_0.positions is Some
                    &&& r->Ok_0.positions->Some_0@ == seq![p]
                },
            },
    {
        match location {
            None => Ok(self),
            Some(p) => {
                if self.positions.is_some() {
                    Err(Error::DuplicatePosition)
                } else {
                    let v = vec![p];
                    Ok(SignalGeneratorBuilder { mode: Some(MotionMode::Static), positions: Some(v), ..self })
                }
            },
        }
    }

    /// Sets a trajectory, one position per epoch. Refused with
    /// `DuplicatePosition` when positions were already set.
    pub fn user_motion(self, positions: Option<Vec<Ecef>>) -> (r: Result<Self, Error>)
        ensures
            match positions {
                None => r == Ok::<Self, Error>(self),
                Some(v) => if self.positions is Some {
                    r == Err::<Self, Error>(Error::DuplicatePosition)
                } else {
                    r == Ok::<Self, Error>(
                        SignalGeneratorBuilder { mode: Some(MotionMode::Dynamic), positions: Some(v), ..self },
                    )
                },
            },
    {
        match positions {
            None => Ok(self),
            Some(v) => {
                if self.positions.is_some() {
                    Err(Error::DuplicatePosition)
                } else {
                    Ok(SignalGeneratorBuilder { mode: Some(MotionMode::Dynamic), positions: Some(v), ..self })
                }
            },
        }
    }

    /// Sets whether the simulation reports its progress.
    pub fn verbose(self, verbose: Option<bool>) -> (r: Self)
        ensures
            r == (SignalGeneratorBuilder { verbose, ..self }),
    {
        SignalGeneratorBuilder { verbose, ..self }
    }

    /// Sets a fixed gain in dB that replaces the path-loss model.
    pub fn path_loss(self, loss: Option<i32>) -> (r: Self)
        ensures
            r == (SignalGeneratorBuilder { path_loss: loss, ..self }),
    {
        SignalGeneratorBuilder { path_loss: loss, ..self }
    }

    /// Sets the interval between position epochs in milliseconds.
    pub fn sample_rate(self, rate: Option<u32>) -> (r: Self)
        ensures
            r == (SignalGeneratorBuilder { sample_rate: rate, ..self }),
    {
        SignalGeneratorBuilder { sample_rate: rate, ..self }
    }
}

impl SignalGeneratorBuilder {
    /// Checks the settings and turns them into a signal generator.
    ///
    /// The errors come in this order: no navigation source; a leap-second
    /// value out of range (day, then week, then delta); an empty position
    /// sequence; a negative duration; a start time the ephemerides cannot
    /// serve (see `align_ephemerides`); no data format. Unset options take
    /// their defaults: the default position, 2.6 MHz, 100 ms epochs, no
    /// override, ionospheric correction on.
    pub fn build(self) -> (r: Result<SignalGenerator, Error>)
        requires
            self.wf(),
        ensures
            self.setup_error() matches Some(e) ==> r == Err::<SignalGenerator, Error>(e),
            self.setup_error() is None ==> match alignment_result(
                self.prepared_navigation(),
                self.receiver_gps_time,
                self.override_view(),
            ) {
                Err(e) => r == Err::<SignalGenerator, Error>(e),
                Ok((i, g0)) => match self.data_format {
                    None => r == Err::<SignalGenerator, Error>(Error::DataFormatNotSet),
                    Some(f) => {
                        &&& r is Ok
                        &&& r->Ok_0.valid_ephemerides_index == i
                        &&& r->Ok_0.receiver_gps_time == g0
                        &&& is_aligned(
                            self.prepared_navigation(),
                            r->Ok_0.navigation,
                            self.receiver_gps_time,
                            self.override_view(),
                        )
                        &&& r->Ok_0.positions@ == self.positions_view()
                        &&& r->Ok_0.simulation_step_count == self.step_count_view()
                        &&& r->Ok_0.mode == self.mode_view()
                        &&& r->Ok_0.elevation_mask == 0
                        &&& r->Ok_0.sample_frequency == match self.frequency {
                            Some(x) => x,
                            None => DEFAULT_FREQUENCY,
                        }
                        &&& r->Ok_0.sample_rate == match self.sample_rate {
                            Some(x) => x,
                            None => DEFAULT_SAMPLE_RATE_MS,
                        }
                        &&& r->Ok_0.data_format == f
                        &&& r->Ok_0.fixed_gain == self.path_loss
                        &&& r->Ok_0.output_file == self.output_file
                        &&& !r->Ok_0.verbose
                    },
                },
            },
    {
        let ghost b = self;
        let ovr = match self.time_override {
            Some(x) => x,
            None => false,
        };
        let mut nav = match self.navigation {
            Some(n) => n,
            None => {
                return Err(Error::NavigationNotSet);
            },
        };
        if let Some(leap) = &self.leap {
            if !(1 <= leap[1] && leap[1] <= 7) {
                return Err(Error::InvalidGpsDay);
            }
            if leap[0] < 0 {
                return Err(Error::InvalidGpsWeek);
            }
            if !(-128 <= leap[2] && leap[2] <= 127) {
                return Err(Error::InvalidDeltaLeapSecond);
            }
            nav.iono_utc.leapen = true;
            nav.iono_utc.wnlsf = leap[0];
            nav.iono_utc.day_number = leap[1];
            nav.iono_utc.dtlsf = leap[2];
        }
        let given = self.positions.is_some();
        let positions: Vec<Ecef> = match self.positions {
            Some(p) => {
                if p.len() == 0 {
                    return Err(Error::WrongPositions);
                }
                p
            },
            None => vec![Ecef { x: DEFAULT_POSITION_X, y: DEFAULT_POSITION_Y, z: DEFAULT_POSITION_Z }],
        };
        let mode = if !given || positions.len() == 1 {
            MotionMode::Static
        } else {
            match self.mode {
                Some(m) => m,
                None => MotionMode::Static,
            }
        };
        let steps: u64 = match self.duration {
            Some(d) => {
                if d < 0 {
                    return Err(Error::InvalidDuration);
                }
                let dc: u64 = (d / EPOCH_MS) as u64 + if d % EPOCH_MS >= 50 {
                    1u64
                } else {
                    0u64
                };
                assert(dc == duration_steps(d as int));
                if mode == MotionMode::Static || (dc as u128) < (positions.len() as u128) {
                    dc
                } else {
                    positions.len() as u64
                }
            },
            None => positions.len() as u64,
        };
        nav.iono_utc.enable = match self.ionospheric_disable {
            Some(x) => !x,
            None => true,
        };
        assert(nav == b.prepared_navigation());
        let (index, start) = match align_ephemerides(&mut nav, self.receiver_gps_time, ovr) {
            Ok(x) => x,
            Err(e) => {
                return Err(e);
            },
        };
        let data_format = match self.data_format {
            Some(f) => f,
            None => {
                return Err(Error::DataFormatNotSet);
            },
        };
        Ok(SignalGenerator {
            navigation: nav,
            valid_ephemerides_index: index,
            positions,
            simulation_step_count: steps,
            receiver_gps_time: start,
            mode,
            elevation_mask: 0,
            sample_frequency: match self.frequency {
                Some(x) => x,
                None => DEFAULT_FREQUENCY,
            },
            sample_rate: match self.sample_rate {
                Some(x) => x,
                None => DEFAULT_SAMPLE_RATE_MS,
            },
            data_format,
            fixed_gain: self.path_loss,
            output_file: self.output_file,
            verbose: false,
        })
    }
}

impl SignalGeneratorBuilder {
    /// Sets the start time from text: "now" in any case for the system
    /// clock (refused with `InvalidStartTime` when the clock cannot be read
    /// as a time in range), else an RFC 3339 instant such as `2022-01-01T11:45:14Z`, read
    /// after lower-casing. Text that is no instant is refused with
    /// `ParsingError`; an instant outside the GPS era with `InvalidStartTime`.
    pub fn time(self, time: Option<String>) -> (r: Result<Self, Error>)
        ensures
            match time {
                None => r == Ok::<Self, Error>(self),
                Some(s) => if lower_of(s@) == "now"@ {
                    match r {
                        Ok(b) => b == (SignalGeneratorBuilder {
                            receiver_gps_time: b.receiver_gps_time,
                            ..self
                        }) && b.receiver_gps_time is Some && b.receiver_gps_time->Some_0.wf()
                            && exists|t: DateTime|
                            t.wf() && t.in_gps_era() && b.receiver_gps_time->Some_0 == gps_of_seconds(
                                #[trigger] seconds_since_epoch(t),
                            ),
                        Err(e) => e == Error::InvalidStartTime,
                    }
                } else {
                    match utc_time_of_text(lower_of(s@)) {
                        None => r == Err::<Self, Error>(Error::ParsingError),
                        Some(t) => if t.in_gps_era() {
                            r == Ok::<Self, Error>(
                                SignalGeneratorBuilder {
                                    receiver_gps_time: Some(gps_of_seconds(seconds_since_epoch(t))),
                                    ..self
                                },
                            )
                        } else {
                            r == Err::<Self, Error>(Error::InvalidStartTime)
                        },
                    }
                },
            },
    {
        match time {
            None => Ok(self),
            Some(s) => {
                let lowered = lowercase(s.as_str());
                let now_word: String = "now".to_owned();
                if lowered == now_word {
                    match utc_now() {
                        Some(t) => self.with_start_time(t),
                        None => Err(Error::InvalidStartTime),
                    }
                } else {
                    match parse_utc(lowered.as_str()) {
                        Some(t) => self.with_start_time(t),
                        None => Err(Error::ParsingError),
                    }
                }
            },
        }
    }
}

impl SignalGenerator {
    /// The receiver position for position epoch `k`: the one position when
    /// static, the `k`-th of the trajectory when moving; `None` once the
    /// simulation is over, after `simulation_step_count` epochs or at the end
    /// of the trajectory.
    pub fn epoch_position(&self, k: u64) -> (r: Option<Ecef>)
        ensures
            (k >= self.simulation_step_count || self.positions@.len() == 0 || (self.mode
                == MotionMode::Dynamic && k >= self.positions@.len())) ==> r is None,
            (k < self.simulation_step_count && self.positions@.len() > 0 && self.mode == MotionMode::Static)
                ==> r == Some(self.positions@[0]),
            (k < self.simulation_step_count && self.mode == MotionMode::Dynamic && k < self.positions@.len())
                ==> r == Some(self.positions@[k as int]),
    {
        if k >= self.simulation_step_count || self.positions.len() == 0 {
            return None;
        }
        match self.mode {
            MotionMode::Static => Some(self.positions[0]),
            MotionMode::Dynamic => {
                if (k as u128) < (self.positions.len() as u128) {
                    Some(self.positions[k as usize])
                } else {
                    None
                }
            },
        }
    }
}

} // verus!
