use vstd::prelude::*;

use crate::constants::{EPHEM_ARRAY_SIZE, MAX_SAT};
use crate::datetime::{DateTime, GpsTime};

verus! {

/// The reference times of one satellite's broadcast ephemeris: what the
/// alignment of a navigation source reads and shifts.
#[derive(Clone, Copy, Debug, PartialEq, Eq, Structural)]
pub struct EphemerisTiming {
    /// The ephemeris holds valid data.
    pub vflg: bool,
    /// Time of clock.
    pub toc: GpsTime,
    /// Time of ephemeris.
    pub toe: GpsTime,
    /// Time of clock as a civil UTC date and time.
    pub t: DateTime,
}

/// The integer part of the ionospheric and UTC parameters: flags, leap-second
/// data and the UTC reference time.
#[derive(Clone, Copy, Debug, PartialEq, Eq, Structural)]
pub struct IonoUtc {
    /// Ionospheric correction is applied.
    pub enable: bool,
    /// The parameters hold valid data.
    pub vflg: bool,
    /// Leap-second data were given by the user.
    pub leapen: bool,
    /// Week number of the future leap second.
    pub wnlsf: i32,
    /// Day number of the future leap second.
    pub day_number: i32,
    /// Leap-second delta after the future leap second.
    pub dtlsf: i32,
    /// Current leap-second delta.
    pub dtls: i32,
    /// UTC reference week number.
    pub week_number: i32,
    /// UTC reference time of week, in seconds.
    pub tot: i32,
}

/// A parsed navigation source: `count` ephemeris sets of `MAX_SAT` slots each,
/// stored set after set, and the ionospheric and UTC parameters.
#[derive(Clone, Debug)]
pub struct NavigationData {
    pub count: usize,
    pub iono_utc: IonoUtc,
    pub ephemerides: Vec<EphemerisTiming>,
}

/// Slot `sv` of set `set` in a table stored set after set.
pub open spec fn entry(e: Seq<EphemerisTiming>, set: int, sv: int) -> EphemerisTiming {
    e[set * MAX_SAT + sv]
}

impl NavigationData {
    /// The table has the shape of `count` sets, and every valid ephemeris has
    /// well-formed reference times.
    pub open spec fn wf(&self) -> bool {
        &&& self.count <= EPHEM_ARRAY_SIZE
        &&& self.ephemerides@.len() == self.count * MAX_SAT
        &&& forall|k: int|
            0 <= k < self.ephemerides@.len() && (#[trigger] self.ephemerides@[k]).vflg
                ==> self.ephemerides@[k].toc.wf() && self.ephemerides@[k].toe.wf()
    }

    /// Whether the data are well formed in the sense of `wf`.
    pub fn is_well_formed(&self) -> (r: bool)
        ensures
            r == self.wf(),
    {
        if self.count > EPHEM_ARRAY_SIZE || self.ephemerides.len() != self.count * MAX_SAT {
            return false;
        }
        let mut k: usize = 0;
        while k < self.ephemerides.len()
            invariant
                0 <= k <= self.ephemerides@.len(),
                forall|j: int|
                    0 <= j < k && (#[trigger] self.ephemerides@[j]).vflg ==> self.ephemerides@[j].toc.wf()
                        && self.ephemerides@[j].toe.wf(),
            decreases self.ephemerides@.len() - k,
        {
            let x = self.ephemerides[k];
            if x.vflg && !(is_wf_time(&x.toc) && is_wf_time(&x.toe)) {
                return false;
            }
            k = k + 1;
        }
        true
    }
}

/// Whether `g` is well formed in the sense of `GpsTime::wf`.
pub fn is_wf_time(g: &GpsTime) -> (r: bool)
    ensures
        r == g.wf(),
{
    0 <= g.sec && g.sec < 604800 && 0 <= g.week && g.week <= crate::constants::MAX_GPS_WEEK
}

} // verus!
