//! The detail enricher: merges a recipient's reminder and notes into an
//! event.

use crate::generate_ics::{EventView, SoonToBeIcsEvent};
use crate::userconfig::{DetailsView, EventDetails};
use vstd::prelude::*;
use vstd::string::*;

verus! {

/// The description after notes have been added: unchanged without notes,
/// the notes alone where there was no description, otherwise the
/// description, an empty line and the notes.
pub open spec fn description_with_notes(description: Seq<char>, notes: Option<Seq<char>>) -> Seq<
    char,
> {
    match notes {
        Some(n) => if n.len() == 0 {
            description
        } else if description.len() == 0 {
            n
        } else {
            description + "\n\n"@ + n
        },
        None => description,
    }
}

/// An event after a recipient's details have been merged in: the reminder
/// is the details' own, set or not.
pub open spec fn with_details(
    event: EventView,
    alert_minutes_before: Option<u16>,
    notes: Option<Seq<char>>,
) -> EventView {
    EventView {
        alert_minutes_before,
        description: description_with_notes(event.description, notes),
        ..event
    }
}

/// An event after a recipient's details have been merged in.
pub open spec fn detailed(event: EventView, details: DetailsView) -> EventView {
    with_details(event, details.alert_minutes_before, details.notes)
}

/// Merges a recipient's details into an event: the reminder always, the
/// notes where there are any.
pub fn apply_details(event: &mut SoonToBeIcsEvent, details: &EventDetails)
    ensures
        final(event)@ == detailed(old(event)@, details@),
{
    event.alert_minutes_before = details.alert_minutes_before;
    if let Some(notes) = &details.notes {
        if !notes.as_str().is_empty() {
            if event.description.as_str().is_empty() {
                event.description = notes.clone();
            } else {
                event.description.append("\n\n");
                event.description.append(notes.as_str());
            }
        }
    }
}

/// Without notes, or with empty ones, the description stays as it is.
pub proof fn law_empty_notes_keep_description(
    event: EventView,
    alert_minutes_before: Option<u16>,
    notes: Option<Seq<char>>,
)
    requires
        notes matches Some(n) ==> n.len() == 0,
    ensures
        with_details(event, alert_minutes_before, notes).description == event.description,
{
}

/// Notes for an event without a description become the description.
pub proof fn law_notes_fill_empty_description(
    event: EventView,
    alert_minutes_before: Option<u16>,
    notes: Seq<char>,
)
    requires
        event.description.len() == 0,
    ensures
        with_details(event, alert_minutes_before, Some(notes)).description == notes,
{
    if notes.len() == 0 {
        assert(event.description =~= notes);
    }
}

/// Notes for an event with a description follow it after an empty line.
pub proof fn law_notes_follow_description(
    event: EventView,
    alert_minutes_before: Option<u16>,
    notes: Seq<char>,
)
    requires
        event.description.len() > 0,
        notes.len() > 0,
    ensures
        with_details(event, alert_minutes_before, Some(notes)).description == event.description
            + "\n\n"@ + notes,
{
}

/// The details decide the reminder, whatever the event had; nothing but
/// reminder and description changes, and the old description is the start of
/// the new one.
pub proof fn law_details_win(
    event: EventView,
    alert_minutes_before: Option<u16>,
    notes: Option<Seq<char>>,
)
    ensures
        with_details(event, alert_minutes_before, notes).alert_minutes_before
            == alert_minutes_before,
        with_details(event, alert_minutes_before, notes) == (EventView {
            alert_minutes_before,
            description: with_details(event, alert_minutes_before, notes).description,
            ..event
        }),
        event.description.is_prefix_of(
            with_details(event, alert_minutes_before, notes).description,
        ),
{
    match notes {
        Some(n) => {
            assert(event.description.is_prefix_of(event.description + "\n\n"@ + n));
            if event.description.len() == 0 {
                assert(event.description.is_prefix_of(n));
            }
        },
        None => {},
    }
}

} // verus!
