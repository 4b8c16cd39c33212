use vstd::prelude::*;

use crate::constants::{FIRST_YEAR, LAST_YEAR, MAX_GPS_WEEK, SECONDS_IN_DAY, SECONDS_IN_WEEK};

verus! {

/// A civil date and time of day in UTC, to the whole second.
#[derive(Clone, Copy, Debug, PartialEq, Eq, Structural)]
pub struct DateTime {
    pub y: i32,
    pub m: i32,
    pub d: i32,
    pub hh: i32,
    pub mm: i32,
    pub sec: i32,
}

/// A GPS time: week number and whole seconds into the week.
#[derive(Clone, Copy, Debug, PartialEq, Eq, Structural)]
pub struct GpsTime {
    pub week: i32,
    pub sec: i32,
}

/// The Gregorian leap-year rule.
pub open spec fn is_leap_year(y: int) -> bool {
    y % 4 == 0 && (y % 100 != 0 || y % 400 == 0)
}

pub open spec fn year_days(y: int) -> int {
    if is_leap_year(y) {
        366
    } else {
        365
    }
}

pub open spec fn month_days(y: int, m: int) -> int {
    if m == 2 {
        if is_leap_year(y) {
            29
        } else {
            28
        }
    } else if m == 4 || m == 6 || m == 9 || m == 11 {
        30
    } else {
        31
    }
}

/// Days from 1980-01-01 to January 1st of year `y`; negative before 1980.
pub open spec fn days_before_year(y: int) -> int
    decreases if y >= 1980 { y - 1980 } else { 1980 - y },
{
    if y > 1980 {
        days_before_year(y - 1) + year_days(y - 1)
    } else if y < 1980 {
        days_before_year(y + 1) - year_days(y)
    } else {
        0
    }
}

/// Leap years from year 1 to year `n`, counted by the Gregorian rule.
pub open spec fn leaps_through(n: int) -> int {
    n / 4 - n / 100 + n / 400
}

/// Days from January 1st to the first day of month `m` of year `y`.
pub open spec fn days_before_month(y: int, m: int) -> int
    decreases m,
{
    if m <= 1 {
        0
    } else {
        days_before_month(y, m - 1) + month_days(y, m - 1)
    }
}

/// Days from 1980-01-01 to the day of `t`.
pub open spec fn day_index(t: DateTime) -> int {
    days_before_year(t.y as int) + days_before_month(t.y as int, t.m as int) + t.d - 1
}

/// Seconds from the GPS epoch, 1980-01-06 00:00:00 UTC, to `t`.
pub open spec fn seconds_since_epoch(t: DateTime) -> int {
    (day_index(t) - 5) * SECONDS_IN_DAY + t.hh * 3600 + t.mm * 60 + t.sec
}

impl DateTime {
    /// A real calendar date and time of day, in the years this library handles.
    pub open spec fn wf(self) -> bool {
        &&& 1 <= self.m <= 12
        &&& 1 <= self.d <= month_days(self.y as int, self.m as int)
        &&& 0 <= self.hh < 24
        &&& 0 <= self.mm < 60
        &&& 0 <= self.sec < 60
    }

    /// On or after the GPS epoch, and no later than the last supported year.
    pub open spec fn in_gps_era(self) -> bool {
        FIRST_YEAR <= self.y <= LAST_YEAR && seconds_since_epoch(self) >= 0
    }
}

impl GpsTime {
    /// Seconds into the week lie in `[0, 604800)`.
    pub open spec fn is_normalized(self) -> bool {
        0 <= self.sec < SECONDS_IN_WEEK
    }

    /// A normalized time whose week lies in `[0, MAX_GPS_WEEK]`.
    pub open spec fn wf(self) -> bool {
        self.is_normalized() && 0 <= self.week <= MAX_GPS_WEEK
    }

    /// Seconds from the GPS epoch.
    pub open spec fn total(self) -> int {
        self.week * SECONDS_IN_WEEK + self.sec
    }

    /// The normalized time `dt` seconds after `self`.
    pub open spec fn after(self, dt: int) -> GpsTime {
        GpsTime {
            week: ((self.total() + dt) / (SECONDS_IN_WEEK as int)) as i32,
            sec: ((self.total() + dt) % (SECONDS_IN_WEEK as int)) as i32,
        }
    }

    /// `self - other` in seconds: `(week - other.week) * 604800 + (sec - other.sec)`.
    pub fn diff_secs(&self, other: &GpsTime) -> (r: i64)
        ensures
            r == self.total() - other.total(),
    {
        (self.week as i64 - other.week as i64) * SECONDS_IN_WEEK + (self.sec as i64
            - other.sec as i64)
    }

    /// The time `dt` seconds after `self`, normalized so that the seconds lie
    /// within the week.
    pub fn add_secs(&self, dt: i64) -> (r: GpsTime)
        requires
            i32::MIN <= (self.total() + dt) / (SECONDS_IN_WEEK as int) <= i32::MAX,
        ensures
            r.is_normalized(),
            r.total() == self.total() + dt,
            r == self.after(dt as int),
    {
        let t: i64 = self.week as i64 * SECONDS_IN_WEEK + self.sec as i64 + dt;
        // shift by 2^31 weeks so that the division works on a non-negative number
        let s: i64 = t + 2147483648i64 * SECONDS_IN_WEEK;
        assert(0 <= s < 4294967296 * SECONDS_IN_WEEK);
        let shifted: u64 = s as u64;
        let q: u64 = shifted / 604800u64;
        let rem: u64 = shifted % 604800u64;
        assert(shifted == q * 604800 + rem);
        let week: i64 = q as i64 - 2147483648i64;
        assert(week * SECONDS_IN_WEEK + rem == t);
        GpsTime { week: week as i32, sec: rem as i32 }
    }
}

/// The normalized GPS time `x` seconds after the epoch.
pub open spec fn gps_of_seconds(x: int) -> GpsTime {
    GpsTime {
        week: (x / (SECONDS_IN_WEEK as int)) as i32,
        sec: (x % (SECONDS_IN_WEEK as int)) as i32,
    }
}

/// Length of year `y` in days.
fn year_length(y: i32) -> (r: i64)
    ensures
        r == year_days(y as int),
{
    if is_leap(y) {
        366
    } else {
        365
    }
}

/// Whether `y` is a leap year.
fn is_leap(y: i32) -> (r: bool)
    ensures
        r == is_leap_year(y as int),
{
    y % 4 == 0 && (y % 100 != 0 || y % 400 == 0)
}

/// Length of month `m` of year `y` in days.
fn month_length(y: i32, m: i32) -> (r: i64)
    ensures
        r == month_days(y as int, m as int),
{
    if m == 2 {
        if is_leap(y) {
            29
        } else {
            28
        }
    } else if m == 4 || m == 6 || m == 9 || m == 11 {
        30
    } else {
        31
    }
}

proof fn lemma_leap_step(y: int)
    ensures
        leaps_through(y) - leaps_through(y - 1) == if is_leap_year(y) { 1int } else { 0int },
{
    assert(y / 4 - (y - 1) / 4 == if y % 4 == 0 { 1int } else { 0int });
    assert(y / 100 - (y - 1) / 100 == if y % 100 == 0 { 1int } else { 0int });
    assert(y / 400 - (y - 1) / 400 == if y % 400 == 0 { 1int } else { 0int });
    assert(y % 100 == 0 ==> y % 4 == 0) by {
        if y % 100 == 0 {
            assert(y == 100 * (y / 100));
            assert(y == 4 * (25 * (y / 100)));
        }
    }
    assert(y % 400 == 0 ==> y % 100 == 0) by {
        if y % 400 == 0 {
            assert(y == 400 * (y / 400));
            assert(y == 100 * (4 * (y / 400)));
        }
    }
}

proof fn lemma_days_before_year_closed(y: int)
    requires
        y >= 1980,
    ensures
        days_before_year(y) == 365 * (y - 1980) + leaps_through(y - 1) - leaps_through(1979),
    decreases y - 1980,
{
    if y > 1980 {
        lemma_days_before_year_closed(y - 1);
        lemma_leap_step(y - 1);
    }
}

/// Each year follows the one before it.
proof fn lemma_days_before_year_step(y: int)
    ensures
        days_before_year(y + 1) == days_before_year(y) + year_days(y),
{
    if y + 1 < 1980 {
    } else if y + 1 == 1980 {
        assert(days_before_year(y) == days_before_year(y + 1) - year_days(y));
    }
}

proof fn lemma_days_before_year_grows(a: int, b: int)
    requires
        a <= b,
    ensures
        days_before_year(b) - days_before_year(a) >= 365 * (b - a),
    decreases b - a,
{
    if a < b {
        lemma_days_before_year_grows(a, b - 1);
        lemma_days_before_year_step(b - 1);
    }
}

proof fn lemma_days_before_month_full_year(y: int)
    ensures
        days_before_month(y, 13) == year_days(y),
        forall|m: int| 1 <= m <= 12 ==> #[trigger] days_before_month(y, m + 1) == days_before_month(y, m) + month_days(y, m),
{
    reveal_with_fuel(days_before_month, 13);
}

/// Days from January 1st to the first day of month `m`.
fn days_before_month_of(y: i32, m: i32) -> (r: i64)
    requires
        1 <= m <= 12,
    ensures
        r == days_before_month(y as int, m as int),
        0 <= r <= 335,
{
    let mut k: i32 = 1;
    let mut acc: i64 = 0;
    proof {
        reveal_with_fuel(days_before_month, 13);
    }
    while k < m
        invariant
            1 <= k <= m <= 12,
            acc == days_before_month(y as int, k as int),
            0 <= acc <= 335,
        decreases m - k,
    {
        proof {
            reveal_with_fuel(days_before_month, 13);
        }
        acc = acc + month_length(y, k);
        k = k + 1;
    }
    acc
}

/// The GPS time of a civil UTC time; `None` before the GPS epoch or after the
/// last supported year.
pub fn date_to_gps(t: &DateTime) -> (r: Option<GpsTime>)
    requires
        t.wf(),
    ensures
        r is None <==> !t.in_gps_era(),
        r matches Some(g) ==> g.wf() && g.total() == seconds_since_epoch(*t) && g
            == gps_of_seconds(seconds_since_epoch(*t)),
{
    if t.y < FIRST_YEAR || t.y > LAST_YEAR {
        return None;
    }
    let ye: u64 = (t.y - FIRST_YEAR) as u64;
    proof {
        lemma_days_before_year_closed(t.y as int);
    }
    let n: u64 = (t.y - 1) as u64;
    let leaps: u64 = n / 4 - n / 100 + n / 400 - 479;
    let day: i64 = (365 * ye + leaps) as i64 + days_before_month_of(t.y, t.m) + t.d as i64
        - 1;
    assert(day == day_index(*t));
    if day < 5 {
        assert(seconds_since_epoch(*t) < 0);
        return None;
    }
    let de: i64 = day - 5;
    let secs: i64 = (de % 7) * SECONDS_IN_DAY + t.hh as i64 * 3600 + t.mm as i64 * 60
        + t.sec as i64;
    let g = GpsTime { week: (de / 7) as i32, sec: secs as i32 };
    assert(g.total() == seconds_since_epoch(*t));
    Some(g)
}

/// The civil UTC time `g` falls on.
pub open spec fn date_of(g: GpsTime) -> DateTime {
    choose|t: DateTime| t.wf() && seconds_since_epoch(t) == g.total()
}

proof fn lemma_month_bounds(y: int, m: int)
    requires
        1 <= m <= 12,
    ensures
        days_before_month(y, m) + month_days(y, m) == days_before_month(y, m + 1),
        days_before_month(y, m + 1) <= year_days(y),
        days_before_month(y, m) >= 0,
        forall|k: int| 1 <= k < m ==> #[trigger] days_before_month(y, k + 1) <= days_before_month(y, m),
{
    reveal_with_fuel(days_before_month, 13);
}

/// The day of a real date lies within its year.
proof fn lemma_day_in_year(t: DateTime)
    requires
        t.wf(),
    ensures
        days_before_year(t.y as int) <= day_index(t) < days_before_year(t.y + 1),
{
    lemma_month_bounds(t.y as int, t.m as int);
    lemma_days_before_year_step(t.y as int);
}

proof fn lemma_same_day_and_time(t1: DateTime, t2: DateTime)
    requires
        t1.wf(),
        t2.wf(),
        seconds_since_epoch(t1) == seconds_since_epoch(t2),
    ensures
        day_index(t1) == day_index(t2),
        t1.hh == t2.hh && t1.mm == t2.mm && t1.sec == t2.sec,
{
    let a = day_index(t1) - 5;
    let b = day_index(t2) - 5;
    let tod1 = t1.hh * 3600 + t1.mm * 60 + t1.sec;
    let tod2 = t2.hh * 3600 + t2.mm * 60 + t2.sec;
    assert(a == b && tod1 == tod2) by (nonlinear_arith)
        requires
            a * 86400 + tod1 == b * 86400 + tod2,
            0 <= tod1 < 86400,
            0 <= tod2 < 86400,
    ;
}

proof fn lemma_same_year(t1: DateTime, t2: DateTime)
    requires
        t1.wf(),
        t2.wf(),
        day_index(t1) == day_index(t2),
    ensures
        t1.y == t2.y,
{
    lemma_day_in_year(t1);
    lemma_day_in_year(t2);
    if t1.y < t2.y {
        lemma_days_before_year_grows(t1.y + 1, t2.y as int);
    } else if t2.y < t1.y {
        lemma_days_before_year_grows(t2.y + 1, t1.y as int);
    }
}

proof fn lemma_same_month_day(t1: DateTime, t2: DateTime)
    requires
        t1.wf(),
        t2.wf(),
        t1.y == t2.y,
        day_index(t1) == day_index(t2),
    ensures
        t1.m == t2.m && t1.d == t2.d,
{
    let y = t1.y as int;
    lemma_month_bounds(y, t1.m as int);
    lemma_month_bounds(y, t2.m as int);
    if t1.m < t2.m {
        assert(days_before_month(y, t1.m + 1) <= days_before_month(y, t2.m as int));
    } else if t2.m < t1.m {
        assert(days_before_month(y, t2.m + 1) <= days_before_month(y, t1.m as int));
    }
}

/// Two real dates and times the same number of seconds from the epoch are equal.
proof fn lemma_date_unique(t1: DateTime, t2: DateTime)
    requires
        t1.wf(),
        t2.wf(),
        seconds_since_epoch(t1) == seconds_since_epoch(t2),
    ensures
        t1 == t2,
{
    lemma_same_day_and_time(t1, t2);
    lemma_same_year(t1, t2);
    lemma_same_month_day(t1, t2);
}

/// The civil UTC time of a GPS time.
pub fn gps_to_date(g: &GpsTime) -> (r: DateTime)
    requires
        g.is_normalized(),
    ensures
        r.wf(),
        seconds_since_epoch(r) == g.total(),
        r == date_of(*g),
{
    let days: i64 = g.week as i64 * 7 + (g.sec / 86400) as i64 + 5;
    let rem: i32 = g.sec % 86400;
    let mut y: i32 = FIRST_YEAR;
    let mut left: i64 = days;
    while left < 0
        invariant
            y <= FIRST_YEAR,
            days <= left,
            days >= -2147483648 * 7,
            days_before_year(y as int) + left == days,
            (1980 - y) * 365 <= left - days,
            y < FIRST_YEAR ==> left < 366,
        decreases y + 2147483648 * 7 / 365,
    {
        proof {
            lemma_days_before_year_step(y - 1);
        }
        y = y - 1;
        left = left + year_length(y);
    }
    while left >= year_length(y)
        invariant
            y <= FIRST_YEAR || (y - 1980) * 365 <= days - left,
            y < FIRST_YEAR ==> left < 366,
            -2147483648 * 7 <= days <= 2147483648 * 7 + 5,
            0 <= left,
            days_before_year(y as int) + left == days,
            y >= 1980 - 2147483648 * 7 / 365 - 1,
        decreases left,
    {
        proof {
            lemma_days_before_year_step(y as int);
        }
        left = left - year_length(y);
        y = y + 1;
    }
    let mut m: i32 = 1;
    proof {
        lemma_days_before_month_full_year(y as int);
    }
    while left >= month_length(y, m)
        invariant
            1 <= m <= 12,
            0 <= left,
            days_before_month(y as int, m as int) + left < year_days(y as int),
            days_before_year(y as int) + days_before_month(y as int, m as int) + left == days,
        decreases 12 - m,
    {
        proof {
            lemma_days_before_month_full_year(y as int);
        }
        left = left - month_length(y, m);
        m = m + 1;
    }
    let r = DateTime {
        y,
        m,
        d: (left + 1) as i32,
        hh: rem / 3600,
        mm: (rem % 3600) / 60,
        sec: rem % 60,
    };
    assert(day_index(r) == days);
    assert(g.sec == (g.sec / 86400) * 86400 + rem);
    assert(rem == (rem / 3600) * 3600 + ((rem % 3600) / 60) * 60 + rem % 60);
    proof {
        assert(r.wf() && seconds_since_epoch(r) == g.total());
        let c = date_of(*g);
        lemma_date_unique(r, c);
    }
    r
}

} // verus!
