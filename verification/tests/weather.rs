use plant_bot::weather::{
    parse_forecast_time,
    adjusted_date_with_offset, find_current_hourly_index, first_matching_instant, metric_window,
    utc_offset_string, watering_cycles, MAX_CYCLES,
};

#[test]
fn utc_offset_strings() {
    assert_eq!(utc_offset_string(0), ":00+00:00");
    assert_eq!(utc_offset_string(3600), ":00+01:00");
    assert_eq!(utc_offset_string(7200), ":00+02:00");
    assert_eq!(utc_offset_string(19800), ":00+05:30");
    assert_eq!(utc_offset_string(-18000), ":00-05:00");
    assert_eq!(utc_offset_string(-1800), ":00+00:30");
    assert_eq!(utc_offset_string(-34200), ":00-09:30");
    assert_eq!(utc_offset_string(360000), ":00+100:00");
}

#[test]
fn adjusted_dates() {
    assert_eq!(
        adjusted_date_with_offset("2024-05-01T13:00", 7200),
        "2024-05-01T13:00:00+02:00"
    );
}

#[test]
fn current_hour_is_found_in_forecast() {
    let times: Vec<String> = ["2024-05-01T12:00", "2024-05-01T13:00", "2024-05-01T14:00"]
        .iter()
        .map(|s| s.to_string())
        .collect();
    // 2024-05-01T11:00:00Z == 13:00 at UTC+2
    assert_eq!(find_current_hourly_index(Some(&times), 7200, (1714561200, 0)), Some(1));
    assert_eq!(find_current_hourly_index(Some(&times), 0, (1714561200, 0)), None);
    assert_eq!(find_current_hourly_index(Some(&times), 3600, (1714561200, 0)), Some(0));
    assert_eq!(find_current_hourly_index(None, 7200, (1714561200, 0)), None);
    let bad: Vec<String> = vec!["not a time".to_string(), "2024-05-01T13:00".to_string()];
    assert_eq!(find_current_hourly_index(Some(&bad), 7200, (1714561200, 0)), Some(1));
}

#[test]
fn first_matching_instant_picks_first() {
    let v = vec![None, Some((5, 0)), Some((7, 0)), Some((7, 0))];
    assert_eq!(first_matching_instant(&v, (7, 0)), Some(2));
    assert_eq!(first_matching_instant(&v, (7, 1)), None);
    assert_eq!(first_matching_instant(&Vec::new(), (7, 0)), None);
}

#[test]
fn metric_windows() {
    assert_eq!(metric_window(30, -24, 48), Some((6, 30)));
    assert_eq!(metric_window(10, -24, 48), Some((0, 10)));
    assert_eq!(metric_window(5, 3, 48), Some((5, 8)));
    assert_eq!(metric_window(5, 3, 9), Some((5, 8)));
    assert_eq!(metric_window(5, 3, 8), None);
    assert_eq!(metric_window(5, 0, 6), Some((5, 5)));
    assert_eq!(metric_window(5, isize::MIN, 6), Some((0, 5)));
    assert_eq!(metric_window(30, -24, 30), None);
    assert_eq!(metric_window(usize::MAX, isize::MAX, usize::MAX), None);
    assert_eq!(metric_window(0, -1, 0), None);
}

#[test]
fn watering_cycles_capped() {
    assert_eq!(watering_cycles(true, 7), 0);
    assert_eq!(watering_cycles(false, 7), 7);
    assert_eq!(watering_cycles(false, 0), 0);
    assert_eq!(watering_cycles(false, 25), MAX_CYCLES);
    assert_eq!(MAX_CYCLES, 10);
}

#[test]
fn offset_suffix_round_trips_through_rfc3339() {
    for s in [0, 60, 3600, 7200, 19800, 20700, 86340, -3600, -18000, -34200, -86340] {
        let text = format!("2024-01-01T00:00{}", utc_offset_string(s));
        let d = chrono::DateTime::parse_from_rfc3339(&text).unwrap();
        assert_eq!(d.offset().local_minus_utc(), s, "{text}");
    }
    // a negative offset of less than an hour loses its sign
    let d = chrono::DateTime::parse_from_rfc3339(&format!("2024-01-01T00:00{}", utc_offset_string(-1800))).unwrap();
    assert_eq!(d.offset().local_minus_utc(), 1800);
}

#[test]
fn forecast_times_parse_with_their_offset() {
    let p = parse_forecast_time("2024-05-01T13:00", 7200).unwrap();
    assert_eq!(p, (1714561200, 0, 7200));
    for s in [0, 60, 19800, -3600, -34200, 86340, -86340] {
        assert_eq!(parse_forecast_time("2024-01-01T00:00", s).unwrap().2, s);
    }
    assert_eq!(parse_forecast_time("2024-01-01T00:00", -1800).unwrap().2, 1800);
    assert_eq!(parse_forecast_time("2024-02-30T00:00", 0), None);
    assert_eq!(parse_forecast_time("not a time", 0), None);
}
