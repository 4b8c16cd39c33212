use gps::alignment::align_ephemerides;
use gps::constants::MAX_SAT;
use gps::datetime::{date_to_gps, gps_to_date, DateTime, GpsTime};
use gps::ephemeris::{EphemerisTiming, IonoUtc, NavigationData};
use gps::error::Error;

fn civil(y: i32, m: i32, d: i32, hh: i32, mm: i32, sec: i32) -> DateTime {
    DateTime { y, m, d, hh, mm, sec }
}

fn iono() -> IonoUtc {
    IonoUtc {
        enable: true,
        vflg: true,
        leapen: false,
        wnlsf: 0,
        day_number: 0,
        dtlsf: 0,
        dtls: 18,
        week_number: 2190,
        tot: 0,
    }
}

fn blank() -> EphemerisTiming {
    let zero = GpsTime { week: 0, sec: 0 };
    EphemerisTiming { vflg: false, toc: zero, toe: zero, t: gps_to_date(&zero) }
}

/// Two sets two hours apart, 2022-01-01 00:00 and 02:00 UTC, with satellites
/// in slots 3 and 7.
fn two_sets() -> NavigationData {
    let mut e = vec![blank(); 2 * MAX_SAT];
    for (set, sec) in [(0usize, 518400i32), (1usize, 525600i32)] {
        for sv in [3usize, 7usize] {
            let t = GpsTime { week: 2190, sec };
            e[set * MAX_SAT + sv] = EphemerisTiming { vflg: true, toc: t, toe: t, t: gps_to_date(&t) };
        }
    }
    NavigationData { count: 2, iono_utc: iono(), ephemerides: e }
}

#[test]
fn date_to_gps_of_new_year_2022() {
    let g = date_to_gps(&civil(2022, 1, 1, 11, 45, 14)).unwrap();
    assert_eq!(g, GpsTime { week: 2190, sec: 560714 });
}

#[test]
fn date_to_gps_at_the_epoch() {
    assert_eq!(date_to_gps(&civil(1980, 1, 6, 0, 0, 0)), Some(GpsTime { week: 0, sec: 0 }));
    assert_eq!(date_to_gps(&civil(1980, 1, 5, 23, 59, 59)), None);
    assert_eq!(date_to_gps(&civil(1979, 12, 31, 0, 0, 0)), None);
}

#[test]
fn date_to_gps_across_a_leap_day() {
    let a = date_to_gps(&civil(2020, 2, 28, 0, 0, 0)).unwrap();
    let b = date_to_gps(&civil(2020, 3, 1, 0, 0, 0)).unwrap();
    assert_eq!(b.diff_secs(&a), 2 * 86400);
}

#[test]
fn gps_to_date_round_trip() {
    let t = civil(2022, 1, 1, 11, 45, 14);
    let g = date_to_gps(&t).unwrap();
    assert_eq!(gps_to_date(&g), t);
    assert_eq!(gps_to_date(&GpsTime { week: 0, sec: 0 }), civil(1980, 1, 6, 0, 0, 0));
    assert_eq!(gps_to_date(&GpsTime { week: 2190, sec: 604799 }), civil(2022, 1, 1, 23, 59, 59));
    assert_eq!(gps_to_date(&GpsTime { week: -1, sec: 0 }), civil(1979, 12, 30, 0, 0, 0));
}

#[test]
fn century_years_follow_the_gregorian_rule() {
    // 2100 is not a leap year, 2000 is
    let a = date_to_gps(&civil(2100, 2, 28, 0, 0, 0)).unwrap();
    let b = date_to_gps(&civil(2100, 3, 1, 0, 0, 0)).unwrap();
    assert_eq!(b.diff_secs(&a), 86400);
    let c = date_to_gps(&civil(2000, 2, 28, 0, 0, 0)).unwrap();
    let d = date_to_gps(&civil(2000, 3, 1, 0, 0, 0)).unwrap();
    assert_eq!(d.diff_secs(&c), 2 * 86400);
    assert_eq!(gps_to_date(&b), civil(2100, 3, 1, 0, 0, 0));
    assert_eq!(gps_to_date(&b.add_secs(-1)), civil(2100, 2, 28, 23, 59, 59));
}

#[test]
fn add_secs_crosses_weeks() {
    let g = GpsTime { week: 2190, sec: 604000 };
    assert_eq!(g.add_secs(1000), GpsTime { week: 2191, sec: 200 });
    assert_eq!(g.add_secs(-604800 * 3 - 604001), GpsTime { week: 2186, sec: 604799 });
    assert_eq!(GpsTime { week: 2191, sec: 200 }.diff_secs(&g), 1000);
}

#[test]
fn alignment_without_start_time_uses_first_toc() {
    let mut nav = two_sets();
    let before = nav.clone();
    let r = align_ephemerides(&mut nav, None, false);
    assert_eq!(r, Ok((0, GpsTime { week: 2190, sec: 518400 })));
    assert_eq!(nav.ephemerides, before.ephemerides);
}

#[test]
fn alignment_selects_the_set_within_an_hour() {
    let mut nav = two_sets();
    let start = GpsTime { week: 2190, sec: 518400 + 3601 };
    assert_eq!(align_ephemerides(&mut nav, Some(start), false), Ok((1, start)));
    let start = GpsTime { week: 2190, sec: 518400 + 3599 };
    assert_eq!(align_ephemerides(&mut nav, Some(start), false), Ok((0, start)));
}

#[test]
fn alignment_window_is_strict() {
    // exactly an hour from both sets: neither is current
    let mut nav = two_sets();
    let start = GpsTime { week: 2190, sec: 518400 + 3600 };
    assert_eq!(align_ephemerides(&mut nav, Some(start), false), Err(Error::NoCurrentEphemerides));
}

#[test]
fn alignment_override_without_start_time_snaps_first_toc() {
    let mut nav = two_sets();
    // move the first TOC off the two-hour grid: 00:30
    for sv in [3usize, 7usize] {
        nav.ephemerides[sv].toc = GpsTime { week: 2190, sec: 518400 + 1800 };
    }
    let r = align_ephemerides(&mut nav, None, true);
    let g_min = GpsTime { week: 2190, sec: 518400 + 1800 };
    assert_eq!(r, Ok((0, g_min)));
    assert_eq!(nav.ephemerides[3].toc, GpsTime { week: 2190, sec: 518400 });
    assert_eq!(nav.ephemerides[MAX_SAT + 3].toc, GpsTime { week: 2190, sec: 525600 - 1800 });
    assert_eq!(nav.iono_utc.week_number, 2190);
    assert_eq!(nav.iono_utc.tot, 518400);
}

#[test]
fn alignment_refuses_start_outside_window() {
    let mut nav = two_sets();
    let start = date_to_gps(&civil(2022, 1, 1, 11, 45, 14)).unwrap();
    assert_eq!(align_ephemerides(&mut nav, Some(start), false), Err(Error::InvalidStartTime));
    let early = GpsTime { week: 2190, sec: 518399 };
    assert_eq!(align_ephemerides(&mut nav, Some(early), false), Err(Error::InvalidStartTime));
}

#[test]
fn alignment_override_shifts_to_two_hour_boundary() {
    let mut nav = two_sets();
    let start = date_to_gps(&civil(2022, 1, 1, 11, 45, 14)).unwrap();
    let r = align_ephemerides(&mut nav, Some(start), true);
    // the start snaps to 10:00; set 0 moves there, set 1 to 12:00
    assert_eq!(r, Ok((1, start)));
    assert_eq!(nav.ephemerides[3].toc, GpsTime { week: 2190, sec: 518400 + 36000 });
    assert_eq!(nav.ephemerides[3].t, civil(2022, 1, 1, 10, 0, 0));
    assert_eq!(nav.ephemerides[MAX_SAT + 7].toe, GpsTime { week: 2190, sec: 525600 + 36000 });
    assert_eq!(nav.ephemerides[4], blank());
    assert_eq!(nav.iono_utc.week_number, 2190);
    assert_eq!(nav.iono_utc.tot, 554400);
}

#[test]
fn alignment_override_twice_changes_nothing_more() {
    let start = GpsTime { week: 2200, sec: 100000 };
    let mut nav = two_sets();
    let first = align_ephemerides(&mut nav, Some(start), true);
    let once = nav.clone();
    let second = align_ephemerides(&mut nav, Some(start), true);
    assert_eq!(first, second);
    assert_eq!(nav.ephemerides, once.ephemerides);
    assert_eq!(nav.iono_utc, once.iono_utc);
}

#[test]
fn alignment_override_falls_back_to_first_set() {
    let mut nav = two_sets();
    // only set 0 has a satellite; after the shift its TOC is 1 h 59 min away
    for sv in [3usize, 7usize] {
        nav.ephemerides[MAX_SAT + sv].vflg = false;
    }
    let start = GpsTime { week: 2190, sec: 7200 + 7140 };
    assert_eq!(align_ephemerides(&mut nav, Some(start), true), Ok((0, start)));
}

#[test]
fn alignment_without_current_set() {
    let mut nav = two_sets();
    nav.ephemerides[MAX_SAT + 3].vflg = false;
    nav.ephemerides[MAX_SAT + 7].vflg = false;
    nav.ephemerides[MAX_SAT + 10] =
        EphemerisTiming {
            vflg: true,
            toc: GpsTime { week: 2190, sec: 540000 },
            toe: GpsTime { week: 2190, sec: 540000 },
            t: civil(2022, 1, 1, 6, 0, 0),
        };
    let start = GpsTime { week: 2190, sec: 527000 };
    assert_eq!(align_ephemerides(&mut nav, Some(start), false), Err(Error::NoCurrentEphemerides));
}
