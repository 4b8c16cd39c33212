use vstd::prelude::*;

use crate::datetime::DateTime;

verus! {

/// The UTC date and time of the instant that jiff reads from `s`, if it reads one.
pub uninterp spec fn utc_time_of_text(s: Seq<char>) -> Option<DateTime>;

/// The lower-case form of `s`.
pub uninterp spec fn lower_of(s: Seq<char>) -> Seq<char>;

/// Relies on `str::to_lowercase`: the result depends on the characters alone.
#[verifier::external_body]
pub(crate) fn lowercase(s: &str) -> (r: String)
    ensures
        r@ == lower_of(s@),
{
    s.to_lowercase()
}

/// Relies on jiff's `Timestamp` parser (`<jiff::Timestamp as FromStr>::from_str`)
/// and on its UTC breakdown (`Timestamp::to_zoned` with `TimeZone::UTC`, then
/// the field getters of `Zoned`); a parse error becomes `None`. An instant it reads has a real calendar date
/// in the years -9999 to 9999 and a time of day whose seconds lie in 0..=59.
#[verifier::external_body]
pub(crate) fn parse_utc(s: &str) -> (r: Option<DateTime>)
    ensures
        r == utc_time_of_text(s@),
        r matches Some(t) ==> t.wf() && -9999 <= t.y <= 9999,
{
    let z = s.parse::<jiff::Timestamp>().ok()?.to_zoned(jiff::tz::TimeZone::UTC);
    Some(DateTime {
        y: z.year() as i32,
        m: z.month() as i32,
        d: z.day() as i32,
        hh: z.hour() as i32,
        mm: z.minute() as i32,
        sec: z.second() as i32,
    })
}

/// Relies on `std::time::SystemTime::now` for the system clock and on jiff's
/// `TryFrom<SystemTime>` for `Timestamp`, which fails when the clock lies
/// outside jiff's range (`None`), then on the UTC breakdown as in `parse_utc`.
#[verifier::external_body]
pub(crate) fn utc_now() -> (r: Option<DateTime>)
    ensures
        r matches Some(t) ==> t.wf() && -9999 <= t.y <= 9999,
{
    let z = jiff::Timestamp::try_from(std::time::SystemTime::now()).ok()?.to_zoned(
        jiff::tz::TimeZone::UTC,
    );
    Some(DateTime {
        y: z.year() as i32,
        m: z.month() as i32,
        d: z.day() as i32,
        hh: z.hour() as i32,
        mm: z.minute() as i32,
        sec: z.second() as i32,
    })
}

} // verus!
