use ics_builder::datetime::DateTime;
use ics_builder::generate_ics::{
    create_valarm, date_to_ics_date, event_as_ics_vevent_string, generate_ics,
    minutes_to_ical_duration, string_to_ical_escaped_text, EventStatus, SoonToBeIcsEvent,
};

fn minimal_event() -> SoonToBeIcsEvent {
    SoonToBeIcsEvent {
        name: "BTI5-VS".to_owned(),
        pretty_name: "BTI5-VS".to_owned(),
        status: EventStatus::Cancelled,
        start_time: DateTime::from_ymd_hms_opt(2020, 8, 22, 8, 30, 0).unwrap(),
        end_time: DateTime::from_ymd_hms_opt(2020, 8, 22, 11, 30, 0).unwrap(),
        alert_minutes_before: None,
        description: String::new(),
        location: String::new(),
    }
}

#[test]
fn parse_ics_date() {
    let date = DateTime::from_ymd_hms_opt(2020, 8, 22, 8, 30, 0).unwrap();
    let result = date_to_ics_date(date);
    assert_eq!(result, "20200822T083000");
}

#[test]
fn create_minimal_event_vevent() {
    let event = minimal_event();

    let mut result = String::new();
    event_as_ics_vevent_string(&mut result, &event);
    assert_eq!(
        result,
        "BEGIN:VEVENT\nTRANSP:OPAQUE\nSTATUS:CANCELLED\nSUMMARY:BTI5-VS\nDTSTART;TZID=Europe/Berlin:20200822T083000\nDTEND;TZID=Europe/Berlin:20200822T113000\nURL;VALUE=URI:https://telegram.me/HAWHHCalendarBot\nUID:dbbd48a01ce77b8c@calendarbot.hawhh.de\nEND:VEVENT\n"
    );
}

#[test]
fn create_valarm_example() {
    let mut output = String::new();
    create_valarm(&mut output, 10);
    assert_eq!(
        output,
        "BEGIN:VALARM\nTRIGGER:-PT10M\nACTION:AUDIO\nEND:VALARM\n"
    );
}

#[test]
fn minutes_to_ical_duration_examples() {
    assert_eq!(minutes_to_ical_duration(0), "00M");
    assert_eq!(minutes_to_ical_duration(10), "10M");
    assert_eq!(minutes_to_ical_duration(30), "30M");
    assert_eq!(minutes_to_ical_duration(60), "01H");
    assert_eq!(minutes_to_ical_duration(90), "01H30M");
    assert_eq!(minutes_to_ical_duration(120), "02H");
}

#[test]
fn long_durations_keep_all_their_digits() {
    assert_eq!(minutes_to_ical_duration(59), "59M");
    assert_eq!(minutes_to_ical_duration(6000), "100H");
    assert_eq!(minutes_to_ical_duration(65535), "1092H15M");
}

#[test]
fn text_is_escaped_once() {
    assert_eq!(string_to_ical_escaped_text(""), "");
    assert_eq!(string_to_ical_escaped_text("plain"), "plain");
    assert_eq!(string_to_ical_escaped_text("a,b;c"), "a\\,b\\;c");
    assert_eq!(string_to_ical_escaped_text("a\\b"), "a\\\\b");
    assert_eq!(string_to_ical_escaped_text("one\ntwo"), "one\\ntwo");
    assert_eq!(string_to_ical_escaped_text("\\,"), "\\\\\\,");
    assert_eq!(string_to_ical_escaped_text("\\n"), "\\\\n");
}

#[test]
fn dates_are_written_in_fifteen_characters() {
    let date = DateTime::from_ymd_hms_opt(987, 1, 2, 3, 4, 5).unwrap();
    assert_eq!(date_to_ics_date(date), "09870102T030405");
    let date = DateTime::from_ymd_hms_opt(0, 12, 31, 23, 59, 59).unwrap();
    assert_eq!(date_to_ics_date(date), "00001231T235959");
}

#[test]
fn years_beyond_four_digits_carry_a_sign() {
    let date = DateTime::from_ymd_hms_opt(12345, 6, 7, 8, 9, 10).unwrap();
    assert_eq!(date_to_ics_date(date), "+123450607T080910");
    let date = DateTime::from_ymd_hms_opt(-5, 6, 7, 8, 9, 10).unwrap();
    assert_eq!(date_to_ics_date(date), "-00050607T080910");
    let date = DateTime::from_ymd_hms_opt(-262143, 1, 1, 0, 0, 0).unwrap();
    assert_eq!(date_to_ics_date(date), "-2621430101T000000");
}

#[test]
fn full_event_has_every_line_in_order() {
    let event = SoonToBeIcsEvent {
        name: "BTI5-VS".to_owned(),
        pretty_name: "BTI5-VS, Labor".to_owned(),
        status: EventStatus::Confirmed,
        start_time: DateTime::from_ymd_hms_opt(2020, 8, 22, 8, 30, 0).unwrap(),
        end_time: DateTime::from_ymd_hms_opt(2020, 8, 22, 11, 30, 0).unwrap(),
        alert_minutes_before: Some(90),
        description: "Dozent: HTM\nRaum; neu".to_owned(),
        location: "1060".to_owned(),
    };
    let mut result = String::from("x");
    event_as_ics_vevent_string(&mut result, &event);
    let uid_start = result.find("UID:").unwrap();
    let uid_end = uid_start + result[uid_start..].find('\n').unwrap();
    let uid = result[uid_start + 4..uid_end].to_owned();
    assert!(uid.ends_with("@calendarbot.hawhh.de"));
    let hash = &uid[..uid.len() - "@calendarbot.hawhh.de".len()];
    assert!(!hash.is_empty());
    assert!(hash.chars().all(|c| c.is_ascii_digit() || ('a'..='f').contains(&c)));
    assert!(hash == "0" || !hash.starts_with('0'));
    assert_eq!(
        result,
        format!(
            "xBEGIN:VEVENT\nTRANSP:OPAQUE\nSTATUS:CONFIRMED\nSUMMARY:BTI5-VS\\, Labor\nDTSTART;TZID=Europe/Berlin:20200822T083000\nDTEND;TZID=Europe/Berlin:20200822T113000\nLOCATION:1060\nDESCRIPTION:Dozent: HTM\\nRaum\\; neu\nURL;VALUE=URI:https://telegram.me/HAWHHCalendarBot\nUID:{uid}\nBEGIN:VALARM\nTRIGGER:-PT01H30M\nACTION:AUDIO\nEND:VALARM\nEND:VEVENT\n"
        )
    );
}

#[test]
fn rendering_twice_gives_the_same_bytes() {
    let events = vec![minimal_event(), minimal_event()];
    let first = generate_ics("Peter", &events);
    let second = generate_ics("Peter", &events);
    assert_eq!(first, second);
}

#[test]
fn document_has_header_zone_events_and_footer() {
    let events = vec![minimal_event()];
    let text = generate_ics("Peter", &events);
    assert!(text.starts_with(
        "BEGIN:VCALENDAR\r\nVERSION:2.0\r\nMETHOD:PUBLISH\r\nPRODID:https://calendarbot.hawhh.de\r\nX-WR-CALNAME:@HAWHHCalendarBot (Peter)\r\nBEGIN:VTIMEZONE\r\nTZID:Europe/Berlin\r\n"
    ));
    assert!(text.ends_with("END:VEVENT\r\nEND:VCALENDAR\r\n"));
    assert!(!text.replace("\r\n", "").contains('\n'));
    assert!(!text.replace("\r\n", "").contains('\r'));
    let mut component = String::new();
    event_as_ics_vevent_string(&mut component, &events[0]);
    assert!(text.contains(&component.replace('\n', "\r\n")));
}

#[test]
fn empty_calendar_is_header_zone_and_footer() {
    let text = generate_ics("Peter", &Vec::new());
    assert_eq!(
        text,
        "BEGIN:VCALENDAR\r\nVERSION:2.0\r\nMETHOD:PUBLISH\r\nPRODID:https://calendarbot.hawhh.de\r\nX-WR-CALNAME:@HAWHHCalendarBot (Peter)\r\nBEGIN:VTIMEZONE\r\nTZID:Europe/Berlin\r\nBEGIN:DAYLIGHT\r\nTZOFFSETFROM:+0100\r\nRRULE:FREQ=YEARLY;BYMONTH=3;BYDAY=-1SU\r\nDTSTART:19810329T020000\r\nTZNAME:CEST\r\nTZOFFSETTO:+0200\r\nEND:DAYLIGHT\r\nBEGIN:STANDARD\r\nTZOFFSETFROM:+0200\r\nRRULE:FREQ=YEARLY;BYMONTH=10;BYDAY=-1SU\r\nDTSTART:19961027T030000\r\nTZNAME:CET\r\nTZOFFSETTO:+0100\r\nEND:STANDARD\r\nEND:VTIMEZONE\r\nEND:VCALENDAR\r\n"
    );
}

fn uid_of(event: &SoonToBeIcsEvent) -> String {
    let mut result = String::new();
    event_as_ics_vevent_string(&mut result, event);
    let start = result.find("UID:").unwrap();
    let end = start + result[start..].find('\n').unwrap();
    result[start..end].to_owned()
}

#[test]
fn identifier_follows_every_field() {
    let base = uid_of(&minimal_event());
    assert_eq!(base, uid_of(&minimal_event()));

    let mut event = minimal_event();
    event.status = EventStatus::Confirmed;
    assert_ne!(base, uid_of(&event));

    let mut event = minimal_event();
    event.start_time = DateTime::from_ymd_hms_opt(2020, 8, 22, 8, 45, 0).unwrap();
    assert_ne!(base, uid_of(&event));

    let mut event = minimal_event();
    event.end_time = DateTime::from_ymd_hms_opt(2020, 8, 22, 11, 45, 0).unwrap();
    assert_ne!(base, uid_of(&event));

    let mut event = minimal_event();
    event.pretty_name = "BTI5-VS x".to_owned();
    assert_ne!(base, uid_of(&event));

    let mut event = minimal_event();
    event.description = "text".to_owned();
    assert_ne!(base, uid_of(&event));

    let mut event = minimal_event();
    event.location = "1060".to_owned();
    assert_ne!(base, uid_of(&event));

    let mut event = minimal_event();
    event.alert_minutes_before = Some(10);
    assert_ne!(base, uid_of(&event));
}

#[test]
fn events_at_the_ends_of_the_calendar_are_rendered() {
    let mut event = minimal_event();
    event.start_time = DateTime::from_ymd_hms_opt(-262143, 1, 1, 0, 0, 0).unwrap();
    event.end_time = DateTime::from_ymd_hms_opt(262142, 12, 31, 23, 59, 59).unwrap();
    let mut result = String::new();
    event_as_ics_vevent_string(&mut result, &event);
    assert!(result.contains("DTSTART;TZID=Europe/Berlin:-2621430101T000000\n"));
    assert!(result.contains("DTEND;TZID=Europe/Berlin:+2621421231T235959\n"));
}
