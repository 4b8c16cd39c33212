use vstd::prelude::*;

use crate::constants::{MAX_GPS_WEEK, MAX_SAT, SECONDS_IN_HOUR, SECONDS_IN_WEEK};
use crate::datetime::{date_of, gps_to_date, GpsTime};
use crate::ephemeris::{entry, EphemerisTiming, IonoUtc, NavigationData};
use crate::error::Error;

verus! {

/// Spacing, in seconds, of the boundaries an overridden start time is snapped to.
pub const OVERRIDE_STEP: i32 = 7200;

/// Week 0, second 0: the GPS epoch.
pub open spec fn zero_time() -> GpsTime {
    GpsTime { week: 0, sec: 0 }
}

/// TOC of the first valid slot of set `set` at or after slot `sv`; the zero
/// time when there is none.
pub open spec fn first_valid_toc_from(e: Seq<EphemerisTiming>, set: int, sv: int) -> GpsTime
    decreases MAX_SAT - sv,
{
    if sv >= MAX_SAT || sv < 0 {
        zero_time()
    } else if entry(e, set, sv).vflg {
        entry(e, set, sv).toc
    } else {
        first_valid_toc_from(e, set, sv + 1)
    }
}

/// TOC of the first valid slot of set `set`; the zero time when there is none.
pub open spec fn first_valid_toc(e: Seq<EphemerisTiming>, set: int) -> GpsTime {
    first_valid_toc_from(e, set, 0)
}

/// Some valid slot of set `set` has a TOC less than an hour away from `g`.
pub open spec fn set_is_current(e: Seq<EphemerisTiming>, set: int, g: GpsTime) -> bool {
    exists|sv: int|
        0 <= sv < MAX_SAT && (#[trigger] entry(e, set, sv)).vflg && -SECONDS_IN_HOUR < g.total()
            - entry(e, set, sv).toc.total() < SECONDS_IN_HOUR
}

/// `g` snapped down to a two-hour boundary of its week.
pub open spec fn snapped(g: GpsTime) -> GpsTime {
    GpsTime { week: g.week, sec: ((g.sec / OVERRIDE_STEP) * OVERRIDE_STEP) as i32 }
}

/// A valid ephemeris with TOC and TOE moved by `delta` seconds and the civil
/// time of the new TOC; an invalid one unchanged.
pub open spec fn shift_entry(x: EphemerisTiming, delta: int) -> EphemerisTiming {
    if x.vflg {
        EphemerisTiming {
            vflg: true,
            toc: x.toc.after(delta),
            toe: x.toe.after(delta),
            t: date_of(x.toc.after(delta)),
        }
    } else {
        x
    }
}

/// `i` is the smallest set index below `count` that is current for `g`.
pub open spec fn is_first_current(e: Seq<EphemerisTiming>, count: int, g: GpsTime, i: int) -> bool {
    &&& 0 <= i < count
    &&& set_is_current(e, i, g)
    &&& forall|j: int| 0 <= j < i ==> !set_is_current(e, j, g)
}

/// No set below `count` is current for `g`.
pub open spec fn none_current(e: Seq<EphemerisTiming>, count: int, g: GpsTime) -> bool {
    forall|j: int| 0 <= j < count ==> !set_is_current(e, j, g)
}

/// TOC of the first valid slot of set `set`; the zero time when there is none.
fn first_valid_toc_of(e: &Vec<EphemerisTiming>, set: usize) -> (r: GpsTime)
    requires
        (set + 1) * MAX_SAT <= e@.len(),
    ensures
        r == first_valid_toc(e@, set as int),
{
    let n = e.len();
    let mut sv: usize = 0;
    while sv < MAX_SAT
        invariant
            0 <= sv <= MAX_SAT,
            (set + 1) * MAX_SAT <= e@.len() == n,
            first_valid_toc(e@, set as int) == first_valid_toc_from(e@, set as int, sv as int),
        decreases MAX_SAT - sv,
    {
        let x = e[set * MAX_SAT + sv];
        if x.vflg {
            return x.toc;
        }
        sv = sv + 1;
    }
    GpsTime { week: 0, sec: 0 }
}

/// Whether some valid slot of set `set` has a TOC less than an hour from `g`.
fn is_current_set(e: &Vec<EphemerisTiming>, set: usize, g: &GpsTime) -> (r: bool)
    requires
        (set + 1) * MAX_SAT <= e@.len(),
    ensures
        r == set_is_current(e@, set as int, *g),
{
    let n = e.len();
    let mut sv: usize = 0;
    while sv < MAX_SAT
        invariant
            0 <= sv <= MAX_SAT,
            (set + 1) * MAX_SAT <= e@.len() == n,
            forall|j: int|
                0 <= j < sv ==> !((#[trigger] entry(e@, set as int, j)).vflg && -SECONDS_IN_HOUR
                    < g.total() - entry(e@, set as int, j).toc.total() < SECONDS_IN_HOUR),
        decreases MAX_SAT - sv,
    {
        let x = e[set * MAX_SAT + sv];
        assert(x == entry(e@, set as int, sv as int));
        if x.vflg {
            let dt = g.diff_secs(&x.toc);
            if -SECONDS_IN_HOUR < dt && dt < SECONDS_IN_HOUR {
                return true;
            }
        }
        sv = sv + 1;
    }
    false
}

/// The smallest set index below `count` with a valid TOC less than an hour from `g`.
pub fn select_current_set(e: &Vec<EphemerisTiming>, count: usize, g: &GpsTime) -> (r: Option<
    usize,
>)
    requires
        count * MAX_SAT <= e@.len(),
    ensures
        r matches Some(i) ==> is_first_current(e@, count as int, *g, i as int),
        r is None ==> none_current(e@, count as int, *g),
{
    let mut i: usize = 0;
    while i < count
        invariant
            0 <= i <= count,
            count * MAX_SAT <= e@.len(),
            forall|j: int| 0 <= j < i ==> !set_is_current(e@, j, *g),
        decreases count - i,
    {
        if is_current_set(e, i, g) {
            return Some(i);
        }
        i = i + 1;
    }
    None
}

/// The start time: the one given, else the TOC of the first valid ephemeris of
/// the first set.
pub open spec fn start_of(e: Seq<EphemerisTiming>, start: Option<GpsTime>) -> GpsTime {
    match start {
        Some(g) => g,
        None => first_valid_toc(e, 0),
    }
}

/// The distance, in seconds, that the table moves under `time_override` for start time `g0`.
pub open spec fn shift_of(e: Seq<EphemerisTiming>, g0: GpsTime) -> int {
    snapped(g0).total() - first_valid_toc(e, 0).total()
}

/// A given start time without override that lies outside the span from the
/// first set's TOC to the last set's TOC.
pub open spec fn start_refused(
    e: Seq<EphemerisTiming>,
    count: int,
    start: Option<GpsTime>,
    time_override: bool,
) -> bool {
    match start {
        Some(g0) => !time_override && (g0.total() < first_valid_toc(e, 0).total() || g0.total()
            > first_valid_toc(e, count - 1).total()),
        None => false,
    }
}

/// The table after alignment.
pub open spec fn aligned_table(e: Seq<EphemerisTiming>, start: Option<GpsTime>, time_override: bool) -> Seq<
    EphemerisTiming,
> {
    if time_override {
        e.map_values(|x: EphemerisTiming| shift_entry(x, shift_of(e, start_of(e, start))))
    } else {
        e
    }
}

/// The ionospheric and UTC parameters after alignment: under `time_override`
/// the UTC reference time becomes the snapped start time.
pub open spec fn aligned_iono(
    iono: IonoUtc,
    e: Seq<EphemerisTiming>,
    start: Option<GpsTime>,
    time_override: bool,
) -> IonoUtc {
    if time_override {
        let g = snapped(start_of(e, start));
        IonoUtc { week_number: g.week, tot: g.sec, ..iono }
    } else {
        iono
    }
}

/// The set selected for `g0`: the first current one, else the first set
/// under `time_override`, else none.
pub open spec fn selected_set(e: Seq<EphemerisTiming>, count: int, g0: GpsTime, time_override: bool) -> Option<
    int,
> {
    if exists|i: int| is_first_current(e, count, g0, i) {
        Some(choose|i: int| is_first_current(e, count, g0, i))
    } else if time_override {
        Some(0)
    } else {
        None
    }
}

/// What aligning `nav` with `start` returns: the selected set and the start
/// time, or why there is none.
pub open spec fn alignment_result(nav: NavigationData, start: Option<GpsTime>, time_override: bool) -> Result<
    (usize, GpsTime),
    Error,
> {
    let e = nav.ephemerides@;
    let g0 = start_of(e, start);
    if start_refused(e, nav.count as int, start, time_override) {
        Err(Error::InvalidStartTime)
    } else {
        match selected_set(aligned_table(e, start, time_override), nav.count as int, g0, time_override) {
            Some(i) => Ok((i as usize, g0)),
            None => Err(Error::NoCurrentEphemerides),
        }
    }
}

/// `after` is `before` aligned with `start`, as `align_ephemerides` leaves it.
pub open spec fn is_aligned(
    before: NavigationData,
    after: NavigationData,
    start: Option<GpsTime>,
    time_override: bool,
) -> bool {
    &&& after.count == before.count
    &&& after.ephemerides@ == aligned_table(before.ephemerides@, start, time_override)
    &&& after.iono_utc == aligned_iono(before.iono_utc, before.ephemerides@, start, time_override)
}

proof fn lemma_first_current_unique(e: Seq<EphemerisTiming>, count: int, g: GpsTime, i: int, j: int)
    requires
        is_first_current(e, count, g, i),
        is_first_current(e, count, g, j),
    ensures
        i == j,
{
}

/// Aligns a navigation source with a start time.
///
/// Without a start time the simulation starts at the TOC of the first valid
/// ephemeris of the first set. Under `time_override`, every valid TOC and TOE
/// is moved by the distance from that TOC to the start time snapped down to a
/// two-hour boundary, and the UTC reference time becomes that boundary. With a
/// start time and no override, a start time outside the span from the first
/// set's TOC to the last set's TOC is refused.
///
/// The selected set is the first with a valid TOC less than an hour from the
/// start time; under `time_override` the first set stands in when there is none.
/// Returns the selected set's index and the start time. On an error `nav` is
/// left as it was.
pub fn align_ephemerides(nav: &mut NavigationData, start: Option<GpsTime>, time_override: bool) -> (r:
    Result<(usize, GpsTime), Error>)
    requires
        old(nav).wf(),
        old(nav).count >= 1,
        start matches Some(g) ==> g.wf(),
    ensures
        r == alignment_result(*old(nav), start, time_override),
        r is Ok ==> is_aligned(*old(nav), *final(nav), start, time_override),
        r is Err ==> *final(nav) == *old(nav),
{
    let ghost e = nav.ephemerides@;
    let count = nav.count;
    let g_min = first_valid_toc_of(&nav.ephemerides, 0);
    let g_max = first_valid_toc_of(&nav.ephemerides, count - 1);
    let g0 = match start {
        Some(g) => g,
        None => g_min,
    };
    proof {
        lemma_first_valid_toc_wf(e, 0, 0);
    }
    if time_override {
        let gtmp = GpsTime { week: g0.week, sec: (g0.sec / OVERRIDE_STEP) * OVERRIDE_STEP };
        let delta = gtmp.diff_secs(&g_min);
        nav.iono_utc.week_number = gtmp.week;
        nav.iono_utc.tot = gtmp.sec;
        shift_all(&mut nav.ephemerides, delta);
    } else if start.is_some() && (g0.diff_secs(&g_min) < 0 || g_max.diff_secs(&g0) < 0) {
        return Err(Error::InvalidStartTime);
    }
    assert(nav.ephemerides@ == aligned_table(e, start, time_override));
    match select_current_set(&nav.ephemerides, count, &g0) {
        Some(i) => {
            proof {
                let c = choose|j: int| is_first_current(nav.ephemerides@, count as int, g0, j);
                lemma_first_current_unique(nav.ephemerides@, count as int, g0, i as int, c);
            }
            Ok((i, g0))
        },
        None => {
            if time_override {
                Ok((0, g0))
            } else {
                Err(Error::NoCurrentEphemerides)
            }
        },
    }
}

proof fn lemma_shift_in_range(g: GpsTime, dt: int)
    requires
        g.wf(),
        -(MAX_GPS_WEEK + 1) * SECONDS_IN_WEEK < dt < (MAX_GPS_WEEK + 1) * SECONDS_IN_WEEK,
    ensures
        i32::MIN <= (g.total() + dt) / (SECONDS_IN_WEEK as int) <= i32::MAX,
{
    let s = g.total() + dt;
    assert(s == (s / (SECONDS_IN_WEEK as int)) * SECONDS_IN_WEEK + s % (SECONDS_IN_WEEK as int));
}

proof fn lemma_first_valid_toc_wf(e: Seq<EphemerisTiming>, set: int, sv: int)
    requires
        0 <= set,
        (set + 1) * MAX_SAT <= e.len(),
        forall|k: int| 0 <= k < e.len() && (#[trigger] e[k]).vflg ==> e[k].toc.wf() && e[k].toe.wf(),
    ensures
        first_valid_toc_from(e, set, sv).wf(),
    decreases MAX_SAT - sv,
{
    if 0 <= sv < MAX_SAT {
        assert(e[set * MAX_SAT + sv] == entry(e, set, sv));
        lemma_first_valid_toc_wf(e, set, sv + 1);
    }
}

/// Moves the TOC and TOE of every valid ephemeris by `delta` seconds.
fn shift_all(e: &mut Vec<EphemerisTiming>, delta: i64)
    requires
        forall|k: int|
            0 <= k < old(e)@.len() && (#[trigger] old(e)@[k]).vflg ==> old(e)@[k].toc.wf()
                && old(e)@[k].toe.wf(),
        -(MAX_GPS_WEEK + 1) * SECONDS_IN_WEEK < delta < (
        MAX_GPS_WEEK + 1) * SECONDS_IN_WEEK,
    ensures
        final(e)@ == old(e)@.map_values(|x: EphemerisTiming| shift_entry(x, delta as int)),
{
    let ghost e0 = e@;
    let mut k: usize = 0;
    while k < e.len()
        invariant
            0 <= k <= e@.len(),
            e@.len() == e0.len(),
            forall|j: int|
                0 <= j < e0.len() && (#[trigger] e0[j]).vflg ==> e0[j].toc.wf() && e0[j].toe.wf(),
            -(MAX_GPS_WEEK + 1) * SECONDS_IN_WEEK < delta < (
            MAX_GPS_WEEK + 1) * SECONDS_IN_WEEK,
            forall|j: int| 0 <= j < k ==> e@[j] == shift_entry(e0[j], delta as int),
            forall|j: int| k <= j < e0.len() ==> e@[j] == e0[j],
        decreases e0.len() - k,
    {
        let x = e[k];
        assert(x == e0[k as int]);
        if x.vflg {
            proof {
                lemma_shift_in_range(x.toc, delta as int);
                lemma_shift_in_range(x.toe, delta as int);
            }
            let toc = x.toc.add_secs(delta);
            let y = EphemerisTiming { vflg: true, toc, toe: x.toe.add_secs(delta), t: gps_to_date(&toc) };
            e.set(k, y);
        }
        k = k + 1;
    }
    assert(e@ =~= e0.map_values(|x: EphemerisTiming| shift_entry(x, delta as int)));
}


/// Aligning under `time_override` is idempotent: aligning an already
/// aligned source again with the same start time leaves its table and its
/// UTC parameters as they are and selects the same set. This needs a valid
/// ephemeris in the first set, whose TOC anchors the shift.
pub proof fn lemma_override_idempotent(nav: NavigationData, after: NavigationData, g0: GpsTime)
    requires
        nav.wf(),
        nav.count >= 1,
        g0.wf(),
        exists|sv: int| 0 <= sv < MAX_SAT && (#[trigger] entry(nav.ephemerides@, 0, sv)).vflg,
        is_aligned(nav, after, Some(g0), true),
    ensures
        aligned_table(after.ephemerides@, Some(g0), true) == after.ephemerides@,
        aligned_iono(after.iono_utc, after.ephemerides@, Some(g0), true) == after.iono_utc,
        alignment_result(after, Some(g0), true) == alignment_result(nav, Some(g0), true),
{
    let e = nav.ephemerides@;
    let delta = shift_of(e, g0);
    let e2 = after.ephemerides@;
    assert(e2 == e.map_values(|x: EphemerisTiming| shift_entry(x, delta)));
    let sv = choose|sv: int| 0 <= sv < MAX_SAT && (#[trigger] entry(e, 0, sv)).vflg;
    lemma_first_valid_toc_shifted(e, e2, delta, 0, sv);
    let gm = first_valid_toc(e, 0);
    let s = snapped(g0);
    assert(0 <= s.sec < SECONDS_IN_WEEK);
    assert(gm.total() + delta == s.week * SECONDS_IN_WEEK + s.sec);
    assert(gm.after(delta) == s);
    assert(shift_of(e2, g0) == 0);
    assert forall|k: int| 0 <= k < e2.len() implies #[trigger] shift_entry(e2[k], 0) == e2[k] by {
        let x = e[k];
        if x.vflg {
            let a = x.toc.after(delta);
            let b = x.toe.after(delta);
            assert(a.after(0) == a);
            assert(b.after(0) == b);
        }
    }
    assert(e2.map_values(|x: EphemerisTiming| shift_entry(x, 0)) =~= e2);
    assert(start_of(e2, Some(g0)) == start_of(e, Some(g0)));
}

/// The first valid slot of set 0 keeps its place after a shift, and its TOC moves with it.
proof fn lemma_first_valid_toc_shifted(
    e: Seq<EphemerisTiming>,
    e2: Seq<EphemerisTiming>,
    delta: int,
    sv: int,
    witness: int,
)
    requires
        e.len() >= MAX_SAT,
        e2 == e.map_values(|x: EphemerisTiming| shift_entry(x, delta)),
        0 <= sv <= witness < MAX_SAT,
        entry(e, 0, witness).vflg,
    ensures
        first_valid_toc_from(e2, 0, sv) == first_valid_toc_from(e, 0, sv).after(delta),
    decreases MAX_SAT - sv,
{
    assert(entry(e2, 0, sv) == shift_entry(entry(e, 0, sv), delta));
    if !entry(e, 0, sv).vflg {
        lemma_first_valid_toc_shifted(e, e2, delta, sv + 1, witness);
    }
}

} // verus!
