use gps::builder::{
    leap_issues, DataFormat, Ecef, MotionMode, SignalGeneratorBuilder, DEFAULT_POSITION_X,
};
use gps::constants::MAX_SAT;
use gps::datetime::{gps_to_date, DateTime, GpsTime};
use gps::ephemeris::{EphemerisTiming, IonoUtc, NavigationData};
use gps::error::Error;

fn nav() -> NavigationData {
    let blank =
        EphemerisTiming { vflg: false, toc: GpsTime { week: 0, sec: 0 }, toe: GpsTime { week: 0, sec: 0 }, t: gps_to_date(&GpsTime { week: 0, sec: 0 }) };
    let mut e = vec![blank; 2 * MAX_SAT];
    for (set, sec) in [(0usize, 518400i32), (1usize, 525600i32)] {
        let t = GpsTime { week: 2190, sec };
        e[set * MAX_SAT + 5] = EphemerisTiming { vflg: true, toc: t, toe: t, t: gps_to_date(&t) };
    }
    let iono = IonoUtc {
        enable: true,
        vflg: true,
        leapen: false,
        wnlsf: 0,
        day_number: 0,
        dtlsf: 0,
        dtls: 18,
        week_number: 2190,
        tot: 0,
    };
    NavigationData { count: 2, iono_utc: iono, ephemerides: e }
}

fn ready() -> SignalGeneratorBuilder {
    SignalGeneratorBuilder::default()
        .navigation_data(Some(nav()))
        .unwrap()
        .data_format(Some(8))
        .unwrap()
}

fn trajectory(n: usize) -> Vec<Ecef> {
    (0..n).map(|i| Ecef { x: -3959617482 + i as i64, y: 3350136615, z: 3699531459 }).collect()
}

#[test]
fn data_format_widths() {
    let b = SignalGeneratorBuilder::default();
    assert_eq!(b.clone().data_format(Some(1)).unwrap().data_format, Some(DataFormat::Bits1));
    assert_eq!(b.clone().data_format(Some(16)).unwrap().data_format, Some(DataFormat::Bits16));
    assert_eq!(b.clone().data_format(None).unwrap().data_format, None);
    assert_eq!(b.data_format(Some(4)).unwrap_err(), Error::InvalidDataFormat);
}

#[test]
fn frequency_below_one_megahertz_is_refused() {
    let b = SignalGeneratorBuilder::default();
    assert_eq!(b.clone().frequency(Some(999_999)).unwrap_err(), Error::InvalidSamplingFrequency);
    assert_eq!(b.frequency(Some(1_000_000)).unwrap().frequency, Some(1_000_000));
}

#[test]
fn second_position_is_duplicate() {
    let p = Ecef { x: 1, y: 2, z: 3 };
    let b = SignalGeneratorBuilder::default().location_ecef(Some(p)).unwrap();
    assert_eq!(b.mode, Some(MotionMode::Static));
    assert_eq!(b.clone().location_ecef(Some(p)).unwrap_err(), Error::DuplicatePosition);
    assert_eq!(b.clone().user_motion(Some(trajectory(3))).unwrap_err(), Error::DuplicatePosition);
    assert!(b.location_ecef(None).is_ok());
}

#[test]
fn empty_navigation_source_is_refused() {
    let empty = NavigationData { count: 0, iono_utc: nav().iono_utc, ephemerides: Vec::new() };
    let r = SignalGeneratorBuilder::default().navigation_data(Some(empty));
    assert_eq!(r.unwrap_err(), Error::NoEphemeris);
    let mut short = nav();
    short.ephemerides.pop();
    let r = SignalGeneratorBuilder::default().navigation_data(Some(short));
    assert_eq!(r.unwrap_err(), Error::ParsingError);
}

#[test]
fn build_error_order() {
    assert_eq!(SignalGeneratorBuilder::default().build().unwrap_err(), Error::NavigationNotSet);
    let b = ready().leap(Some(vec![-1, 9, 300]));
    assert_eq!(b.build().unwrap_err(), Error::InvalidGpsDay);
    let b = ready().leap(Some(vec![-1, 7, 300]));
    assert_eq!(b.build().unwrap_err(), Error::InvalidGpsWeek);
    let b = ready().leap(Some(vec![2185, 7, 300]));
    assert_eq!(b.build().unwrap_err(), Error::InvalidDeltaLeapSecond);
    let b = ready().user_motion(Some(Vec::new())).unwrap();
    assert_eq!(b.build().unwrap_err(), Error::WrongPositions);
    let b = ready().duration(Some(-1));
    assert_eq!(b.build().unwrap_err(), Error::InvalidDuration);
    let b = SignalGeneratorBuilder::default().navigation_data(Some(nav())).unwrap();
    assert_eq!(b.build().unwrap_err(), Error::DataFormatNotSet);
}

#[test]
fn leap_issue_warnings() {
    assert_eq!(leap_issues(&vec![-1, 0, 200]), vec![
        Error::InvalidGpsWeek,
        Error::InvalidGpsDay,
        Error::InvalidDeltaLeapSecond
    ]);
    assert_eq!(leap_issues(&vec![2185, 7, 18]), Vec::<Error>::new());
}

#[test]
fn build_defaults() {
    let g = ready().build().unwrap();
    assert_eq!(g.positions.len(), 1);
    assert_eq!(g.positions[0].x, DEFAULT_POSITION_X);
    assert_eq!(g.mode, MotionMode::Static);
    assert_eq!(g.simulation_step_count, 1);
    assert_eq!(g.sample_frequency, 2_600_000);
    assert_eq!(g.sample_rate, 100);
    assert_eq!(g.receiver_gps_time, GpsTime { week: 2190, sec: 518400 });
    assert_eq!(g.valid_ephemerides_index, 0);
    assert!(g.navigation.iono_utc.enable);
    assert_eq!(g.data_format, DataFormat::Bits8);
}

#[test]
fn build_applies_leap_and_ionosphere() {
    let g = ready().leap(Some(vec![2185, 7, 18])).ionospheric_disable(Some(true)).build().unwrap();
    assert!(g.navigation.iono_utc.leapen);
    assert_eq!(g.navigation.iono_utc.wnlsf, 2185);
    assert_eq!(g.navigation.iono_utc.day_number, 7);
    assert_eq!(g.navigation.iono_utc.dtlsf, 18);
    assert!(!g.navigation.iono_utc.enable);
}

#[test]
fn static_duration_sets_step_count() {
    let g = ready().duration(Some(31_000)).build().unwrap();
    assert_eq!(g.simulation_step_count, 310);
    let g = ready().duration(Some(31_049)).build().unwrap();
    assert_eq!(g.simulation_step_count, 310);
    let g = ready().duration(Some(31_050)).build().unwrap();
    assert_eq!(g.simulation_step_count, 311);
}

#[test]
fn motion_without_duration_runs_whole_trajectory() {
    let g = ready().user_motion(Some(trajectory(300))).unwrap().build().unwrap();
    assert_eq!(g.mode, MotionMode::Dynamic);
    assert_eq!(g.simulation_step_count, 300);
}

#[test]
fn motion_shorter_than_duration_stops_early() {
    let g = ready().user_motion(Some(trajectory(300))).unwrap().duration(Some(60_000)).build().unwrap();
    assert_eq!(g.simulation_step_count, 300);
    let g = ready().user_motion(Some(trajectory(300))).unwrap().duration(Some(10_000)).build().unwrap();
    assert_eq!(g.simulation_step_count, 100);
}

#[test]
fn single_position_trajectory_is_static() {
    let g = ready().user_motion(Some(trajectory(1))).unwrap().duration(Some(5_000)).build().unwrap();
    assert_eq!(g.mode, MotionMode::Static);
    assert_eq!(g.simulation_step_count, 50);
}

#[test]
fn start_time_from_text() {
    let b = ready().time(Some("2022-01-01T01:45:14Z".to_string())).unwrap();
    assert_eq!(b.receiver_gps_time, Some(GpsTime { week: 2190, sec: 524714 }));
    let g = b.build().unwrap();
    assert_eq!(g.valid_ephemerides_index, 1);
}

#[test]
fn start_time_outside_window_needs_override() {
    let text = Some("2022-01-01T11:45:14Z".to_string());
    let b = ready().time(text.clone()).unwrap();
    assert_eq!(b.build().unwrap_err(), Error::InvalidStartTime);
    let g = ready().time(text).unwrap().time_override(Some(true)).build().unwrap();
    assert_eq!(g.receiver_gps_time, GpsTime { week: 2190, sec: 560714 });
    assert_eq!(g.valid_ephemerides_index, 1);
    assert_eq!(g.navigation.ephemerides[MAX_SAT + 5].toc, GpsTime { week: 2190, sec: 561600 });
    assert_eq!(g.navigation.ephemerides[MAX_SAT + 5].t, DateTime { y: 2022, m: 1, d: 1, hh: 12, mm: 0, sec: 0 });
    assert_eq!(g.navigation.iono_utc.tot, 554400);
}

#[test]
fn start_time_text_errors() {
    assert_eq!(ready().time(Some("yesterday".to_string())).unwrap_err(), Error::ParsingError);
    let before_epoch = ready().time(Some("1975-06-01T00:00:00Z".to_string()));
    assert_eq!(before_epoch.unwrap_err(), Error::InvalidStartTime);
    assert!(ready().time(None).unwrap().receiver_gps_time.is_none());
}

#[test]
fn start_time_now_in_any_case() {
    let b = ready().time(Some("NoW".to_string())).unwrap();
    let g = b.receiver_gps_time.unwrap();
    assert!(g.week > 2190 && g.sec >= 0 && g.sec < 604800);
}

#[test]
fn start_time_from_civil_fields() {
    let t = DateTime { y: 2022, m: 1, d: 1, hh: 11, mm: 45, sec: 14 };
    let b = ready().with_start_time(t).unwrap();
    assert_eq!(b.receiver_gps_time, Some(GpsTime { week: 2190, sec: 560714 }));
}

#[test]
fn plain_setters_record_values() {
    let b = SignalGeneratorBuilder::default()
        .output_file(Some("out.bin".to_string()))
        .path_loss(Some(-10))
        .verbose(Some(true))
        .sample_rate(Some(200));
    assert_eq!(b.output_file.as_deref(), Some("out.bin"));
    assert_eq!(b.path_loss, Some(-10));
    assert_eq!(b.verbose, Some(true));
    assert_eq!(b.sample_rate, Some(200));
}

#[test]
fn epoch_positions_follow_mode() {
    let g = ready().user_motion(Some(trajectory(3))).unwrap().duration(Some(10_000)).build().unwrap();
    assert_eq!(g.epoch_position(2), Some(trajectory(3)[2]));
    assert_eq!(g.epoch_position(3), None);
    let g = ready().duration(Some(1_000)).build().unwrap();
    assert_eq!(g.epoch_position(9).map(|p| p.x), Some(DEFAULT_POSITION_X));
    assert_eq!(g.epoch_position(10), None);
}
