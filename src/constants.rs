use vstd::prelude::*;

verus! {

/// Number of satellite slots per ephemeris set (PRNs 1..32 in use).
pub const MAX_SAT: usize = 33;

/// Number of channels that may be tracked at once.
pub const MAX_CHAN: usize = 16;

/// Largest number of ephemeris sets one navigation source may hold.
pub const EPHEM_ARRAY_SIZE: usize = 15;

/// Seconds in one GPS week.
pub const SECONDS_IN_WEEK: i64 = 604800;

/// Seconds in one day.
pub const SECONDS_IN_DAY: i64 = 86400;

/// Seconds in one hour.
pub const SECONDS_IN_HOUR: i64 = 3600;

/// Largest GPS week number a well-formed time may carry.
pub const MAX_GPS_WEEK: i32 = 1048575;

/// Earliest calendar year a civil time may carry.
pub const FIRST_YEAR: i32 = 1980;

/// Latest calendar year a civil time may carry.
pub const LAST_YEAR: i32 = 9999;

} // verus!
