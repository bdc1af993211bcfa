use ics_builder::apply_details::apply_details;
use ics_builder::datetime::DateTime;
use ics_builder::generate_ics::{EventStatus, SoonToBeIcsEvent};
use ics_builder::userconfig::EventDetails;

fn create_event(description: &str) -> SoonToBeIcsEvent {
    SoonToBeIcsEvent {
        name: "BTI5-VSP/01".to_owned(),
        pretty_name: "BTI5-VSP/01".to_owned(),
        status: EventStatus::Confirmed,
        start_time: DateTime::from_ymd_hms_opt(2020, 4, 2, 8, 15, 0).unwrap(),
        end_time: DateTime::from_ymd_hms_opt(2020, 4, 2, 11, 15, 0).unwrap(),
        alert_minutes_before: None,
        description: description.to_owned(),
        location: "".to_owned(),
    }
}

fn check_alert(alert_minutes_before: Option<u16>) {
    let details = EventDetails {
        alert_minutes_before,
        notes: None,
    };
    let mut event = create_event("");
    apply_details(&mut event, &details);
    assert_eq!(event.alert_minutes_before, alert_minutes_before);
}

#[test]
fn alert_examples() {
    check_alert(None);
    check_alert(Some(10));
    check_alert(Some(30));
    check_alert(Some(60));
}

fn check_description(notes: Option<&str>, event_description: &str, expected: &str) {
    let details = EventDetails {
        alert_minutes_before: None,
        notes: notes.map(std::borrow::ToOwned::to_owned),
    };
    let mut event = create_event(event_description);
    apply_details(&mut event, &details);
    assert_eq!(event.description, expected);
}

#[test]
fn no_note_no_description() {
    check_description(None, "", "");
}

#[test]
fn no_note_some_description() {
    check_description(None, "bla", "bla");
}

#[test]
fn some_note_no_description() {
    check_description(Some("bla"), "", "bla");
}

#[test]
fn some_note_some_description() {
    check_description(Some("foo"), "bar", "bar\n\nfoo");
}

#[test]
fn empty_note_keeps_description() {
    check_description(Some(""), "bla", "bla");
    check_description(Some(""), "", "");
}

#[test]
fn details_replace_an_earlier_reminder() {
    let mut event = create_event("bla");
    event.alert_minutes_before = Some(45);
    let details = EventDetails {
        alert_minutes_before: None,
        notes: Some("foo".to_owned()),
    };
    apply_details(&mut event, &details);
    assert_eq!(event.alert_minutes_before, None);
    assert_eq!(event.description, "bla\n\nfoo");
    assert_eq!(event.name, "BTI5-VSP/01");
    assert_eq!(event.pretty_name, "BTI5-VSP/01");
    assert_eq!(event.location, "");
}
