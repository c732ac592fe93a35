use rwrk::expire::{
    beijing_timestamp, deadline_from, parse_expire, read_deadline, FIRST_SECOND, LAST_SECOND,
};

#[test]
fn end_times_are_read_on_beijing_clocks() {
    assert_eq!(parse_expire("1970.1.1-08:00"), Some(0));
    assert_eq!(parse_expire("1970.1.1-00:00"), Some(-28800));
    assert_eq!(parse_expire("2000.1.1-00:00"), Some(946656000));
    assert_eq!(parse_expire("2000.01.01-00:01"), Some(946656060));
    assert_eq!(parse_expire("2024.2.29-12:30"), Some(1709181000));
}

#[test]
fn other_texts_are_no_end_times() {
    for text in [
        "", "60", "2000.1.1", "2000-1-1-00:00", "2000.1.1 00:00", "2000.1.1-00:00:00",
        "2000.13.1-00:00", "2023.2.29-00:00", "2000.1.1-24:00", "2000.1.1-00:60", "soon",
    ] {
        assert_eq!(parse_expire(text), None, "{:?}", text);
    }
}

#[test]
fn the_calendar_has_ends() {
    assert_eq!(FIRST_SECOND, chrono::DateTime::<chrono::Utc>::MIN_UTC.timestamp());
    assert_eq!(LAST_SECOND, chrono::DateTime::<chrono::Utc>::MAX_UTC.timestamp());
    assert_eq!(parse_expire("-262143.1.1-00:00"), None);
    assert_eq!(parse_expire("-262143.1.1-07:59"), None);
    assert_eq!(parse_expire("-262143.1.1-08:00"), Some(FIRST_SECOND));
    assert_eq!(parse_expire("+262142.12.31-23:59"), Some(LAST_SECOND - 59 - 28800));
    assert_eq!(parse_expire("+262143.1.1-00:00"), None);
}

#[test]
fn civil_times_become_instants() {
    assert_eq!(beijing_timestamp(0), Some(-28800));
    assert_eq!(beijing_timestamp(28800), Some(0));
    assert_eq!(beijing_timestamp(FIRST_SECOND), None);
    assert_eq!(beijing_timestamp(FIRST_SECOND + 28799), None);
    assert_eq!(beijing_timestamp(FIRST_SECOND + 28800), Some(FIRST_SECOND));
    assert_eq!(beijing_timestamp(LAST_SECOND), Some(LAST_SECOND - 28800));
    assert_eq!(beijing_timestamp(LAST_SECOND + 1), None);
    assert_eq!(beijing_timestamp(FIRST_SECOND - 1), None);
    assert_eq!(beijing_timestamp(i64::MAX), None);
    assert_eq!(beijing_timestamp(i64::MIN), None);
}

#[test]
fn numbers_are_durations() {
    assert_eq!(read_deadline("60", 1000), Some(1060));
    assert_eq!(read_deadline("0", 1000), Some(1000));
    assert_eq!(read_deadline("+5", -10), Some(-5));
    assert_eq!(read_deadline("-5", 1000), None);
    assert_eq!(read_deadline("1h", 1000), None);
    assert_eq!(read_deadline("", 1000), None);
    assert_eq!(read_deadline("9223372036854775807", 0), Some(i64::MAX));
    assert_eq!(read_deadline("9223372036854775807", 1), None);
    assert_eq!(read_deadline("9223372036854775808", -1), None);
}

#[test]
fn end_times_come_before_durations() {
    assert_eq!(read_deadline("2000.1.1-00:00", 5), Some(946656000));
    assert_eq!(deadline_from(Some(7), "60", 1000), Some(7));
    assert_eq!(deadline_from(None, "60", 1000), Some(1060));
    assert_eq!(deadline_from(None, "2000.1.1-00:00", 1000), None);
}

#[test]
fn every_written_minute_reads_back() {
    let first = -62135596800i64;
    let last = 253402300740i64;
    let mut times = vec![first, first + 60, 0, 60, 68256000, 951782400, 4107542340, last - 60, last];
    let mut t = first;
    while t < last {
        times.push(t);
        t += 60 * 9999991;
    }
    for civil in times {
        let at = chrono::DateTime::from_timestamp(civil, 0).unwrap();
        let text = at.format("%Y.%m.%d-%H:%M").to_string();
        assert_eq!(text.len(), 16);
        assert_eq!(parse_expire(&text), Some(civil - 28800), "{}", text);
    }
    assert_eq!(parse_expire("0001.01.01-00:00"), Some(first - 28800));
    assert_eq!(parse_expire("9999.12.31-23:59"), Some(last - 28800));
}

#[test]
fn leading_zeros_do_not_matter() {
    for text in ["2000.1.1-0:0", "2000.01.1-00:0", "2000.1.01-0:00", "2000.01.01-00:00"] {
        assert_eq!(parse_expire(text), Some(946656000), "{}", text);
    }
    assert_eq!(parse_expire("0.1.1-00:00"), Some(-62167219200 - 28800));
    assert_eq!(parse_expire("0000.12.31-23:59"), Some(-62135596860 - 28800));
    assert_eq!(parse_expire("7.3.5-6:7"), Some(-61940829180 - 28800));
}

#[test]
fn minutes_that_are_not_in_the_calendar_are_refused() {
    for text in [
        "2000.0.1-00:00", "2000.1.0-00:00", "2000.13.01-00:00", "2000.4.31-00:00",
        "1900.2.29-00:00", "2001.02.29-00:00", "2000.99.99-99:99", "2000.1.1-24:00",
        "2000.1.1-00:60", "0000.2.30-00:00",
    ] {
        assert_eq!(parse_expire(text), None, "{}", text);
    }
    assert_eq!(parse_expire("0.2.29-00:00"), Some(-62162121600 - 28800));
    assert_eq!(parse_expire("20000.1.1-00:00"), None);
    assert_eq!(parse_expire("2000.001.1-00:00"), None);
    assert_eq!(parse_expire("2000/1/1-00:00"), None);
    assert_eq!(parse_expire("2000.1.1-0000"), None);
    assert_eq!(parse_expire("2000.1.1 0:00"), None);
}

#[test]
fn every_short_minute_agrees_with_the_calendar() {
    for year in [0, 4, 99, 100, 400, 1900, 1999, 2000, 2023, 2024, 9999] {
        for month in 0..15 {
            for day in 0..33 {
                let text = format!("{}.{}.{}-5:6", year, month, day);
                let date = chrono::NaiveDate::from_ymd_opt(year, month, day);
                let expected = date.map(|d| {
                    d.and_hms_opt(5, 6, 0).unwrap().and_utc().timestamp() - 28800
                });
                assert_eq!(parse_expire(&text), expected, "{}", text);
            }
        }
    }
}
