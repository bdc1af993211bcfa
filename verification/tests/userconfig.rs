use ics_builder::datetime::{DateTime, TimeOfDay, ZonedDateTime};
use ics_builder::userconfig::{
    parse_change_date, parse_change_time, parse_removed_events, RemovedEvents, Userconfig,
};

#[test]
fn removed_events_can_be_parsed() {
    assert_eq!(
        parse_removed_events("cancelled"),
        Ok(RemovedEvents::Cancelled)
    );
    assert_eq!(parse_removed_events("removed"), Ok(RemovedEvents::Removed));
    assert_eq!(parse_removed_events("emoji"), Ok(RemovedEvents::Emoji));
    assert_eq!(
        parse_removed_events("wha"),
        Err("could not parse removed events wha".to_owned())
    );
}

fn config_with(removed_events: Option<&str>) -> Userconfig {
    Userconfig {
        calendarfile_suffix: "123qwe".to_owned(),
        changes: Vec::new(),
        events: Vec::new(),
        removed_events: removed_events.map(str::to_owned),
    }
}

#[test]
fn removed_events_default_to_cancelled() {
    assert_eq!(
        config_with(None).removed_events(),
        Ok(RemovedEvents::Cancelled)
    );
    assert_eq!(
        config_with(Some("removed")).removed_events(),
        Ok(RemovedEvents::Removed)
    );
    assert_eq!(
        config_with(Some("emoji")).removed_events(),
        Ok(RemovedEvents::Emoji)
    );
    assert_eq!(
        config_with(Some("")).removed_events(),
        Err("could not parse removed events ".to_owned())
    );
    assert_eq!(
        config_with(Some("Removed")).removed_events(),
        Err("could not parse removed events Removed".to_owned())
    );
}

#[test]
fn can_parse_change_date_from_utc_to_local() {
    let actual = parse_change_date("2020-07-01T06:30").unwrap();
    let string = actual.to_rfc3339();
    assert_eq!(string, "2020-07-01T08:30:00+02:00");
}

#[test]
fn change_date_in_summer_is_two_hours_ahead() {
    let actual = parse_change_date("2020-07-01T06:30").unwrap();
    assert_eq!(
        actual.local,
        DateTime::from_ymd_hms_opt(2020, 7, 1, 8, 30, 0).unwrap()
    );
    assert_eq!(actual.offset_seconds, 2 * 60 * 60);
}

#[test]
fn zoned_times_are_written_with_their_offset() {
    let zoned = |year, offset_seconds| ZonedDateTime {
        local: DateTime::from_ymd_hms_opt(year, 1, 2, 3, 4, 5).unwrap(),
        offset_seconds,
    };
    assert_eq!(zoned(2021, 0).to_rfc3339(), "2021-01-02T03:04:05+00:00");
    assert_eq!(zoned(2021, -3600).to_rfc3339(), "2021-01-02T03:04:05-01:00");
    assert_eq!(zoned(987, 19800).to_rfc3339(), "0987-01-02T03:04:05+05:30");
    assert_eq!(zoned(1890, 3208).to_rfc3339(), "1890-01-02T03:04:05+00:53");
    assert_eq!(zoned(1890, 3209).to_rfc3339(), "1890-01-02T03:04:05+00:53");
    assert_eq!(zoned(1890, 3210).to_rfc3339(), "1890-01-02T03:04:05+00:54");
    assert_eq!(zoned(1890, -29).to_rfc3339(), "1890-01-02T03:04:05-00:00");
    assert_eq!(zoned(12345, 0).to_rfc3339(), "+12345-01-02T03:04:05+00:00");
    assert_eq!(zoned(-1, 0).to_rfc3339(), "-0001-01-02T03:04:05+00:00");
    assert_eq!(
        zoned(2021, i32::MIN).to_rfc3339(),
        "2021-01-02T03:04:05-596523:14"
    );
}

#[test]
fn change_date_in_winter_is_one_hour_ahead() {
    let actual = parse_change_date("2020-12-31T23:30").unwrap();
    assert_eq!(
        actual.local,
        DateTime::from_ymd_hms_opt(2021, 1, 1, 0, 30, 0).unwrap()
    );
    assert_eq!(actual.offset_seconds, 60 * 60);
}

#[test]
fn malformed_change_date_is_an_error() {
    let error = parse_change_date("tomorrow").unwrap_err();
    assert!(error.starts_with("parse_datetime failed naive tomorrow Error: "));
    assert!(error.len() > "parse_datetime failed naive tomorrow Error: ".len());
    assert!(parse_change_date("2020-02-30T10:00").is_err());
    assert!(parse_change_date("2020-07-01 06:30").is_ok());
    assert!(parse_change_date("2020-07-01T06:30:00").is_err());
    assert!(parse_change_date("").is_err());
}

#[test]
fn change_time_is_hours_and_minutes() {
    assert_eq!(
        parse_change_time("08:30"),
        Ok(TimeOfDay::from_hms_opt(8, 30, 0).unwrap())
    );
    assert_eq!(
        parse_change_time("23:59"),
        Ok(TimeOfDay::from_hms_opt(23, 59, 0).unwrap())
    );
    let error = parse_change_time("24:00").unwrap_err();
    assert!(error.starts_with("parse_time failed 24:00 Error: "));
    assert!(parse_change_time("8 o'clock").is_err());
    assert!(parse_change_time("").is_err());
}

#[test]
fn change_dates_at_the_end_of_the_calendar() {
    let last = parse_change_date("+262142-12-31T22:59").unwrap();
    assert_eq!(
        last.local,
        DateTime::from_ymd_hms_opt(262142, 12, 31, 23, 59, 0).unwrap()
    );
    let error = parse_change_date("+262142-12-31T23:30").unwrap_err();
    assert_eq!(
        error,
        "parse_datetime failed fixed_offset +262142-12-31T23:30 Error: input is out of range"
    );
    let first = parse_change_date("-262143-01-01T00:00").unwrap();
    assert_eq!(first.local.year(), -262143);
    assert!(parse_change_date("+262143-01-01T00:00").is_err());
    assert!(parse_change_date("10000-01-01T00:00").is_err());
    assert!(parse_change_date("+10000-01-01T00:00").is_ok());
}
