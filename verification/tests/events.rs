use ics_builder::datetime::DateTime;
use ics_builder::events::{file_name, to_events, EventEntry, FOLDER};
use ics_builder::generate_ics::{EventStatus, SoonToBeIcsEvent};

fn entry() -> EventEntry {
    EventEntry {
        name: "BTI1-TI".to_owned(),
        location: "1060".to_owned(),
        description: "Dozent: HTM".to_owned(),
        start_time: DateTime::from_ymd_hms_opt(2022, 1, 13, 11, 40, 0).unwrap(),
        end_time: DateTime::from_ymd_hms_opt(2022, 1, 13, 12, 0, 0).unwrap(),
    }
}

#[test]
fn entry_becomes_a_confirmed_event() {
    let event = SoonToBeIcsEvent::from(entry());
    assert_eq!(
        event,
        SoonToBeIcsEvent {
            name: "BTI1-TI".to_owned(),
            pretty_name: "BTI1-TI".to_owned(),
            status: EventStatus::Confirmed,
            start_time: DateTime::from_ymd_hms_opt(2022, 1, 13, 11, 40, 0).unwrap(),
            end_time: DateTime::from_ymd_hms_opt(2022, 1, 13, 12, 0, 0).unwrap(),
            alert_minutes_before: None,
            description: "Dozent: HTM".to_owned(),
            location: "1060".to_owned(),
        }
    );
}

#[test]
fn entries_become_events_in_their_order() {
    let mut second = entry();
    second.name = "BTI5-VS".to_owned();
    let events = to_events(vec![entry(), second]);
    assert_eq!(events.len(), 2);
    assert_eq!(events[0], SoonToBeIcsEvent::from(entry()));
    assert_eq!(events[1].name, "BTI5-VS");
    assert_eq!(events[1].pretty_name, "BTI5-VS");
    assert_eq!(to_events(Vec::new()), Vec::new());
}

#[test]
fn group_files_have_hyphens_for_slashes() {
    assert_eq!(file_name("BTI5-VSP/01"), "BTI5-VSP-01.json");
    assert_eq!(file_name("a/b/c"), "a-b-c.json");
    assert_eq!(file_name("plain"), "plain.json");
    assert_eq!(file_name(""), ".json");
    assert_eq!(FOLDER, "eventfiles");
}
