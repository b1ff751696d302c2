use air_ingest::calendar::{backfill_plan, plan_windows, CalendarDay, DateWindow, MAX_WINDOW_DAYS};
use air_ingest::ieee::Ieee64;
use air_ingest::model::{flatten, to_columns, AirQuality, AirQualityHourly, Quantity, RawAirQuality, RawHourlyData};
use air_ingest::persist::{bulk_insert_from, plan_bulk_insert, PersistError};
use air_ingest::recency::{latest_not_after, most_recent, parse_stamps};

fn reading(v: f64) -> Option<Ieee64> {
    Some(Ieee64 { bits: v.to_bits() })
}

fn record(time: &str, pm10: Option<f64>) -> AirQualityHourly {
    AirQualityHourly {
        time: time.to_string(),
        pm10: pm10.and_then(reading),
        pm2_5: reading(3.5),
        carbon_monoxide: None,
        carbon_dioxide: reading(420.0),
        nitrogen_dioxide: reading(12.25),
        sulphur_dioxide: None,
        ozone: reading(60.0),
        methane: None,
        uv_index: reading(0.0),
        dust: None,
        aerosol_optical_depth: reading(0.125),
        us_aqi: reading(41.9),
    }
}

fn ragged_series() -> RawHourlyData {
    RawHourlyData {
        time: vec![
            "2024-03-01T00:00".to_string(),
            "2024-03-01T01:00".to_string(),
            "2024-03-01T02:00".to_string(),
        ],
        pm10: vec![reading(10.5), None, reading(12.0)],
        pm2_5: vec![reading(4.0)],
        carbon_monoxide: vec![],
        carbon_dioxide: vec![reading(400.0), reading(401.0), reading(402.0)],
        nitrogen_dioxide: vec![reading(1.0), reading(2.0)],
        sulphur_dioxide: vec![reading(0.5), reading(0.5), reading(0.5)],
        ozone: vec![reading(50.0), reading(51.0), reading(52.0)],
        methane: vec![None, None, None],
        uv_index: vec![reading(0.0), reading(0.0), reading(1.5)],
        dust: vec![reading(2.0), reading(2.0), reading(2.0)],
        aerosol_optical_depth: vec![reading(0.1), reading(0.2), reading(0.3)],
        us_aqi: vec![reading(30.0), reading(31.0), reading(32.0), reading(33.0)],
    }
}

fn seconds_of(text: &str) -> i64 {
    chrono::NaiveDateTime::parse_from_str(text, "%Y-%m-%dT%H:%M").unwrap().and_utc().timestamp()
}

fn day(text: &str) -> CalendarDay {
    CalendarDay::parse(text).unwrap()
}

#[test]
fn flatten_gives_one_record_per_timestamp() {
    let raw = ragged_series();
    let rows = flatten(&raw);
    assert_eq!(rows.len(), 3);
    assert_eq!(rows[0].time, "2024-03-01T00:00");
    assert_eq!(rows[2].time, "2024-03-01T02:00");
    assert_eq!(rows[0].pm10, reading(10.5));
    assert_eq!(rows[1].pm10, None);
    assert_eq!(rows[2].pm10, reading(12.0));
    assert_eq!(rows[2].us_aqi, reading(32.0));
}

#[test]
fn flatten_short_columns_leave_trailing_readings_absent() {
    let rows = flatten(&ragged_series());
    assert_eq!(rows[0].pm2_5, reading(4.0));
    assert_eq!(rows[1].pm2_5, None);
    assert_eq!(rows[2].pm2_5, None);
    assert_eq!(rows[1].nitrogen_dioxide, reading(2.0));
    assert_eq!(rows[2].nitrogen_dioxide, None);
    for r in rows.iter() {
        assert_eq!(r.carbon_monoxide, None);
        assert_eq!(r.reading(Quantity::CarbonMonoxide), None);
    }
}

#[test]
fn flatten_empty_series() {
    let raw = RawHourlyData {
        time: vec![],
        pm10: vec![reading(1.0)],
        pm2_5: vec![],
        carbon_monoxide: vec![],
        carbon_dioxide: vec![],
        nitrogen_dioxide: vec![],
        sulphur_dioxide: vec![],
        ozone: vec![],
        methane: vec![],
        uv_index: vec![],
        dust: vec![],
        aerosol_optical_depth: vec![],
        us_aqi: vec![],
    };
    assert_eq!(flatten(&raw).len(), 0);
}

#[test]
fn payload_becomes_rows() {
    let raw = RawAirQuality {
        latitude: Ieee64 { bits: 52.52f64.to_bits() },
        longitude: Ieee64 { bits: 13.41f64.to_bits() },
        elevation: Ieee64 { bits: 38.0f64.to_bits() },
        generationtime_ms: Ieee64 { bits: 0.5f64.to_bits() },
        utc_offset_seconds: 0,
        timezone: "GMT".to_string(),
        timezone_abbreviation: "GMT".to_string(),
        hourly: ragged_series(),
    };
    let q = AirQuality::from_raw(raw);
    assert_eq!(q.hourly.len(), 3);
    assert_eq!(q.hourly[1].ozone, reading(51.0));
}

#[test]
fn columns_round_trip_keeps_every_reading_and_absence() {
    let batch = vec![
        record("2024-03-01T00:00", Some(9.0)),
        record("2024-03-01T01:00", None),
        record("2024-03-01T02:00", Some(-0.0)),
    ];
    let cols = to_columns(&batch);
    assert_eq!(cols.pm10, vec![reading(9.0), None, reading(-0.0)]);
    let back = flatten(&cols);
    assert_eq!(back.len(), batch.len());
    for i in 0..batch.len() {
        assert_eq!(back[i].time, batch[i].time);
        assert_eq!(back[i].pm10, batch[i].pm10);
        assert_eq!(back[i].pm2_5, batch[i].pm2_5);
        assert_eq!(back[i].carbon_monoxide, batch[i].carbon_monoxide);
        assert_eq!(back[i].carbon_dioxide, batch[i].carbon_dioxide);
        assert_eq!(back[i].nitrogen_dioxide, batch[i].nitrogen_dioxide);
        assert_eq!(back[i].sulphur_dioxide, batch[i].sulphur_dioxide);
        assert_eq!(back[i].ozone, batch[i].ozone);
        assert_eq!(back[i].methane, batch[i].methane);
        assert_eq!(back[i].uv_index, batch[i].uv_index);
        assert_eq!(back[i].dust, batch[i].dust);
        assert_eq!(back[i].aerosol_optical_depth, batch[i].aerosol_optical_depth);
        assert_eq!(back[i].us_aqi, batch[i].us_aqi);
    }
    assert_ne!(back[2].pm10, reading(0.0));
}

#[test]
fn windows_cover_a_year_back_to_earliest() {
    let today = day("2024-01-01");
    let earliest = day("2023-01-01");
    let ws = plan_windows(today, earliest);
    assert_eq!(ws.len(), 5);
    assert_eq!(ws[0].end, today);
    assert_eq!(ws[ws.len() - 1].start, earliest);
    for (k, w) in ws.iter().enumerate() {
        assert!(w.start.days <= w.end.days);
        assert!((w.end.days - w.start.days) as i64 + 1 <= MAX_WINDOW_DAYS);
        if k + 1 < ws.len() {
            assert!(ws[k + 1].start.days < w.start.days);
            assert_eq!(ws[k + 1].end.days, w.start.days - 1);
        }
    }
    let covered: i64 = ws.iter().map(|w| (w.end.days - w.start.days) as i64 + 1).sum();
    assert_eq!(covered, (today.days - earliest.days) as i64 + 1);
    assert_eq!(ws[0].start.to_text().unwrap(), "2023-10-03");
    assert_eq!(ws[4].end.to_text().unwrap(), "2023-01-02");
}

#[test]
fn windows_empty_when_today_is_earliest() {
    let d = day("2023-01-01");
    assert!(plan_windows(d, d).is_empty());
}

#[test]
fn windows_single_short_range() {
    let ws = plan_windows(day("2023-01-05"), day("2023-01-01"));
    assert_eq!(
        ws,
        vec![DateWindow { start: day("2023-01-01"), end: day("2023-01-05") }]
    );
}

#[test]
fn backfill_plan_starts_at_fixed_earliest_date() {
    let ws = backfill_plan(day("2024-01-01")).unwrap();
    assert_eq!(ws.len(), 5);
    assert_eq!(ws[4].start.to_text().unwrap(), "2023-01-01");
}

#[test]
fn calendar_day_text_round_trip() {
    let d = day("2023-01-01");
    assert_eq!(d.days, 738521);
    assert_eq!(d.to_text().unwrap(), "2023-01-01");
    assert_eq!(CalendarDay::parse("2023-02-30"), None);
    assert_eq!(CalendarDay::parse("yesterday"), None);
}

#[test]
fn recent_picks_latest_sample_not_in_future() {
    let now = seconds_of("2024-05-01T12:00");
    assert_eq!(now, 1714564800);
    let batch = vec![
        record("2024-05-01T10:00", Some(1.0)),
        record("2024-05-01T11:00", Some(2.0)),
        record("2024-05-01T13:00", Some(3.0)),
    ];
    let picked = most_recent(batch, now);
    assert_eq!(picked.len(), 1);
    assert_eq!(picked[0].time, "2024-05-01T11:00");
    assert_eq!(picked[0].pm10, reading(2.0));
}

#[test]
fn recent_only_future_samples_gives_nothing() {
    let now = seconds_of("2024-05-01T12:00");
    let batch = vec![record("2024-05-01T13:00", Some(3.0)), record("2024-05-01T14:00", None)];
    assert!(most_recent(batch, now).is_empty());
    assert!(most_recent(vec![], now).is_empty());
}

#[test]
fn recent_skips_unreadable_timestamps() {
    let now = seconds_of("2024-05-01T12:00");
    let batch = vec![
        record("2024-05-01T09:00", Some(1.0)),
        record("not a time", Some(2.0)),
        record("2024-05-01 11:00", Some(4.0)),
    ];
    let picked = most_recent(batch, now);
    assert_eq!(picked.len(), 1);
    assert_eq!(picked[0].time, "2024-05-01T09:00");
}

#[test]
fn recent_sample_exactly_now_qualifies() {
    let now = seconds_of("2024-05-01T12:00");
    let batch = vec![record("2024-05-01T12:00", Some(5.0)), record("2024-05-01T11:00", Some(2.0))];
    let picked = most_recent(batch, now);
    assert_eq!(picked[0].time, "2024-05-01T12:00");
}

#[test]
fn latest_not_after_takes_first_on_tie() {
    let stamps = vec![Some(5), None, Some(9), Some(9), Some(20)];
    assert_eq!(latest_not_after(&stamps, 10), Some(2));
    assert_eq!(latest_not_after(&stamps, 4), None);
    assert_eq!(latest_not_after(&stamps, 20), Some(4));
    assert_eq!(latest_not_after(&vec![], 20), None);
}

#[test]
fn bulk_insert_empty_batch_is_noop() {
    let r = plan_bulk_insert(&vec![]);
    assert!(matches!(r, Ok(None)));
}

#[test]
fn bulk_insert_missing_pm10_is_null() {
    let batch = vec![
        record("2024-05-01T10:00", Some(7.5)),
        record("2024-05-01T11:00", None),
        record("2024-05-01T12:00", Some(0.0)),
    ];
    let b = plan_bulk_insert(&batch).unwrap().unwrap();
    assert_eq!(b.pm10, vec![reading(7.5), None, reading(0.0)]);
    assert_ne!(b.pm10[1], reading(0.0));
    assert_eq!(b.times, vec![1714557600, 1714561200, 1714564800]);
    assert_eq!(b.us_aqi, vec![Some(41), Some(41), Some(41)]);
    assert_eq!(b.pm2_5.len(), 3);
    assert_eq!(b.carbon_monoxide, vec![None, None, None]);
    assert_eq!(b.aerosol_optical_depth, vec![reading(0.125); 3]);
}

#[test]
fn bulk_insert_bad_timestamp_refuses_batch() {
    let batch = vec![
        record("2024-05-01T10:00", Some(7.5)),
        record("2024-05-01", None),
        record("garbage", None),
    ];
    match plan_bulk_insert(&batch) {
        Err(e) => assert_eq!(e, PersistError::InvalidTimestamp { index: 1 }),
        Ok(_) => panic!("expected the batch to be refused"),
    }
}

#[test]
fn bulk_insert_index_truncates_toward_zero() {
    let mut a = record("2024-05-01T10:00", None);
    a.us_aqi = reading(57.99);
    let mut b = record("2024-05-01T11:00", None);
    b.us_aqi = None;
    let mut c = record("2024-05-01T12:00", None);
    c.us_aqi = reading(-3.7);
    let plan = plan_bulk_insert(&vec![a, b, c]).unwrap().unwrap();
    assert_eq!(plan.us_aqi, vec![Some(57), None, Some(-3)]);
}

#[test]
fn truncate_matches_float_cast() {
    let values = [
        0.0, -0.0, 0.5, -0.5, 1.0, 42.7, -42.7, 1e-310, 123456789.987, 4503599627370495.5,
        9007199254740993.0, 4611686018427387904.0, 9.223372036854775e18, 9.3e18, -9.3e18, 1e300,
        -1e300, f64::INFINITY, f64::NEG_INFINITY, f64::NAN, f64::MAX, f64::MIN, -9.223372036854775808e18,
    ];
    for v in values {
        assert_eq!(Ieee64 { bits: v.to_bits() }.truncate_to_i64(), v as i64, "value {}", v);
    }
    assert_eq!(Ieee64 { bits: 42.7f64.to_bits() }.truncate_to_i64(), 42);
    assert_eq!(Ieee64 { bits: f64::NAN.to_bits() }.truncate_to_i64(), 0);
    assert_eq!(Ieee64 { bits: f64::INFINITY.to_bits() }.truncate_to_i64(), i64::MAX);
}

#[test]
fn parse_stamps_reads_minutes_in_utc() {
    let batch = vec![
        record("1970-01-01T00:01", None),
        record("2024-05-01T12:00", None),
        record("2024-05-01T12:00:00", None),
        record("", None),
    ];
    assert_eq!(parse_stamps(&batch), vec![Some(60), Some(1714564800), None, None]);
}

#[test]
fn bulk_insert_from_given_instants() {
    let batch = vec![record("a", Some(1.0)), record("b", None)];
    let plan = bulk_insert_from(&batch, &vec![Some(100), Some(-200)]).unwrap().unwrap();
    assert_eq!(plan.times, vec![100, -200]);
    assert_eq!(plan.pm10, vec![reading(1.0), None]);
    match bulk_insert_from(&batch, &vec![Some(100), None]) {
        Err(e) => assert_eq!(e, PersistError::InvalidTimestamp { index: 1 }),
        Ok(_) => panic!("expected the batch to be refused"),
    }
    match bulk_insert_from(&batch, &vec![None, None]) {
        Err(e) => assert_eq!(e, PersistError::InvalidTimestamp { index: 0 }),
        Ok(_) => panic!("expected the batch to be refused"),
    }
    assert!(matches!(bulk_insert_from(&vec![], &vec![]), Ok(None)));
}
