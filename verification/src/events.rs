//! The events of an event group as its file holds them.

use crate::datetime::DateTime;
use crate::generate_ics::{event_views, EventStatus, EventView, SoonToBeIcsEvent};
use crate::text::{replace, replaced};
use vstd::prelude::*;
use vstd::std_specs::convert::FromSpecImpl;
use vstd::string::*;

verus! {

/// One event of an event group.
#[derive(Debug)]
pub struct EventEntry {
    pub name: String,
    pub location: String,
    pub description: String,
    pub start_time: DateTime,
    pub end_time: DateTime,
}

/// The directory that holds the files of the event groups.
pub const FOLDER: &'static str = "eventfiles";

/// The name of the file of an event group: the group's name with a hyphen
/// for every slash, and the ending `.json`.
pub open spec fn group_file_name(name: Seq<char>) -> Seq<char> {
    replaced(name, '/', seq!['-']) + ".json"@
}

/// The name of the file that holds the event group of the given name.
pub fn file_name(name: &str) -> (r: String)
    ensures
        r@ == group_file_name(name@),
{
    proof {
        reveal_strlit("-");
        assert("-"@ =~= seq!['-']);
    }
    let mut filename = replace(name, '/', "-");
    filename.append(".json");
    filename
}

impl From<EventEntry> for SoonToBeIcsEvent {
    /// The event of a calendar that an entry of a group stands for:
    /// confirmed, titled by its name, without a reminder.
    fn from(event: EventEntry) -> (r: Self) {
        Self {
            start_time: event.start_time,
            end_time: event.end_time,
            name: event.name.clone(),
            pretty_name: event.name,
            status: EventStatus::Confirmed,
            alert_minutes_before: None,
            description: event.description,
            location: event.location,
        }
    }
}

impl FromSpecImpl<EventEntry> for SoonToBeIcsEvent {
    open spec fn obeys_from_spec() -> bool {
        true
    }

    open spec fn from_spec(event: EventEntry) -> Self {
        SoonToBeIcsEvent {
            start_time: event.start_time,
            end_time: event.end_time,
            name: event.name,
            pretty_name: event.name,
            status: EventStatus::Confirmed,
            alert_minutes_before: None,
            description: event.description,
            location: event.location,
        }
    }
}

/// The event of a calendar that an entry of a group stands for.
pub open spec fn entry_event(entry: EventEntry) -> EventView {
    EventView {
        name: entry.name@,
        pretty_name: entry.name@,
        status: EventStatus::Confirmed,
        start_time: entry.start_time@,
        end_time: entry.end_time@,
        alert_minutes_before: None,
        description: entry.description@,
        location: entry.location@,
    }
}

/// The events of a calendar that the entries of a group stand for.
pub open spec fn entry_events(entries: Seq<EventEntry>) -> Seq<EventView> {
    entries.map_values(|e: EventEntry| entry_event(e))
}

/// Turns the entries of a group into events of a calendar.
pub fn to_events(entries: Vec<EventEntry>) -> (events: Vec<SoonToBeIcsEvent>)
    ensures
        event_views(events@) == entry_events(entries@),
{
    let mut events: Vec<SoonToBeIcsEvent> = Vec::new();
    for entry in it: entries
        invariant
            it.seq() == entries@,
            event_views(events@) == entry_events(entries@.take(it.index() as int)),
    {
        let ghost done = event_views(events@);
        let event = SoonToBeIcsEvent::from(entry);
        events.push(event);
        proof {
            let i = it.index() as int;
            assert(entry == entries@[i]);
            assert(entries@.take(i + 1) =~= entries@.take(i).push(entries@[i]));
            assert(event_views(events@) =~= done.push(entry_event(entry)));
            assert(entry_events(entries@.take(i + 1)) =~= done.push(entry_event(entry)));
        }
    }
    assert(entries@.take(entries@.len() as int) =~= entries@);
    events
}

} // verus!
