//! The change engine: patches a recipient's events according to an ordered
//! list of changes.

use crate::datetime::{DateTime, DateTimeView, TimeOfDay, TimeOfDayView};
use crate::generate_ics::{event_views, EventStatus, EventView, SoonToBeIcsEvent};
use crate::userconfig::{
    change_date_of, change_time_of, change_views, option_text, parse_change_date,
    parse_change_time, Change, ChangeView, RemovedEvents,
};
use vstd::prelude::*;
use vstd::string::*;

verus! {

/// A change whose date and times have been read.
#[derive(Debug)]
pub struct ChangeInstruction {
    /// Whether the change adds an event of its own.
    pub add: bool,
    pub name: String,
    /// The start of the event that the change is about.
    pub date: DateTime,
    /// Whether the change removes the event.
    pub remove: bool,
    pub namesuffix: Option<String>,
    pub starttime: Option<TimeOfDay>,
    pub endtime: Option<TimeOfDay>,
    pub room: Option<String>,
}

/// A change instruction as the model sees it.
pub struct InstructionView {
    pub add: bool,
    pub name: Seq<char>,
    pub date: DateTimeView,
    pub remove: bool,
    pub namesuffix: Option<Seq<char>>,
    pub starttime: Option<TimeOfDayView>,
    pub endtime: Option<TimeOfDayView>,
    pub room: Option<Seq<char>>,
}

/// An optional time of day as the model sees it.
pub open spec fn option_time(t: Option<TimeOfDay>) -> Option<TimeOfDayView> {
    match t {
        Some(time) => Some(time@),
        None => None,
    }
}

impl View for ChangeInstruction {
    type V = InstructionView;

    open spec fn view(&self) -> InstructionView {
        InstructionView {
            add: self.add,
            name: self.name@,
            date: self.date@,
            remove: self.remove,
            namesuffix: option_text(self.namesuffix),
            starttime: option_time(self.starttime),
            endtime: option_time(self.endtime),
            room: option_text(self.room),
        }
    }
}

/// What a change did to the events.
#[derive(Debug, PartialEq, Eq, Clone, Copy, Structural)]
pub enum ChangeOutcome {
    /// It added an event.
    Added,
    /// It edited the event that it is about.
    Edited,
    /// It took the event that it is about out of the calendar.
    Removed,
    /// It is about an event that is not there, and did nothing.
    Unmatched,
}

/// The description of every event that a change adds.
pub const ADDED_DESCRIPTION: &'static str =
    "Dies ist eine zus\u{e4}tzliche Veranstaltung welche manuell von dir \u{fc}ber den Telegram Bot hinzuf\u{fc}gt wurde.";

/// What stands in front of the title of a removed event that stays visible.
pub const REMOVED_PREFIX: &'static str = "\u{1f6ab} ";

/// The complaint about an addition without an end time.
pub const MISSING_END_TIME: &'static str = "change add has no end_time specified";

/// A title with a suffix after a space, or as it is.
pub open spec fn with_suffix(title: Seq<char>, namesuffix: Option<Seq<char>>) -> Seq<char> {
    match namesuffix {
        Some(suffix) => title + " "@ + suffix,
        None => title,
    }
}

/// Whether a change is about this event: name and start both agree.
pub open spec fn is_target(event: EventView, name: Seq<char>, date: DateTimeView) -> bool {
    event.name == name && event.start_time == date
}

/// The place of the first event that a change is about; the number of
/// events where there is none.
pub open spec fn first_target(events: Seq<EventView>, name: Seq<char>, date: DateTimeView) -> int
    decreases events.len(),
{
    if events.len() == 0 {
        0
    } else {
        let before = first_target(events.drop_last(), name, date);
        if before < events.len() - 1 || is_target(events.last(), name, date) {
            before
        } else {
            events.len() as int
        }
    }
}

/// The event that an addition creates.
pub open spec fn added_event(change: InstructionView, end: TimeOfDayView) -> EventView {
    EventView {
        name: change.name,
        pretty_name: with_suffix(change.name, change.namesuffix),
        status: EventStatus::Confirmed,
        start_time: change.date,
        end_time: change.date.with_time(end),
        alert_minutes_before: None,
        description: ADDED_DESCRIPTION@,
        location: match change.room {
            Some(room) => room,
            None => Seq::empty(),
        },
    }
}

/// An event after a change that keeps it: cancelled or marked if the change
/// removes it, then suffix, room, start and end as far as the change has
/// them.
pub open spec fn edited_event(
    event: EventView,
    change: InstructionView,
    removed_events: RemovedEvents,
) -> EventView {
    EventView {
        name: event.name,
        pretty_name: with_suffix(
            if change.remove && removed_events == RemovedEvents::Emoji {
                REMOVED_PREFIX@ + event.pretty_name
            } else {
                event.pretty_name
            },
            change.namesuffix,
        ),
        status: if change.remove && removed_events == RemovedEvents::Cancelled {
            EventStatus::Cancelled
        } else {
            event.status
        },
        start_time: match change.starttime {
            Some(time) => change.date.with_time(time),
            None => event.start_time,
        },
        end_time: match change.endtime {
            Some(time) => change.date.with_time(time),
            None => event.end_time,
        },
        alert_minutes_before: event.alert_minutes_before,
        description: event.description,
        location: match change.room {
            Some(room) => room,
            None => event.location,
        },
    }
}

/// The events after one change, or why the change cannot be applied.
///
/// An addition appends its event and needs an end time.  Any other change
/// is about the first event of its name and start: it takes that event out
/// if the change removes it and removed events are to leave, edits it
/// otherwise, and does nothing where there is no such event.
pub open spec fn applied(
    events: Seq<EventView>,
    change: InstructionView,
    removed_events: RemovedEvents,
) -> Result<Seq<EventView>, Seq<char>> {
    if change.add {
        match change.endtime {
            Some(end) => Ok(events.push(added_event(change, end))),
            None => Err(MISSING_END_TIME@),
        }
    } else {
        let i = first_target(events, change.name, change.date);
        if i >= events.len() {
            Ok(events)
        } else if change.remove && removed_events == RemovedEvents::Removed {
            Ok(events.remove(i))
        } else {
            Ok(events.update(i, edited_event(events[i], change, removed_events)))
        }
    }
}

/// What a change that can be applied does to the events.
pub open spec fn outcome_of(
    events: Seq<EventView>,
    change: InstructionView,
    removed_events: RemovedEvents,
) -> ChangeOutcome {
    if change.add {
        ChangeOutcome::Added
    } else if first_target(events, change.name, change.date) >= events.len() {
        ChangeOutcome::Unmatched
    } else if change.remove && removed_events == RemovedEvents::Removed {
        ChangeOutcome::Removed
    } else {
        ChangeOutcome::Edited
    }
}

/// The first target is where no event before it is a target and, if it is
/// an event at all, that event is one.
pub proof fn lemma_first_target(events: Seq<EventView>, name: Seq<char>, date: DateTimeView)
    ensures
        0 <= first_target(events, name, date) <= events.len(),
        forall|j: int|
            0 <= j < first_target(events, name, date) ==> !is_target(#[trigger] events[j], name, date),
        first_target(events, name, date) < events.len() ==> is_target(
            events[first_target(events, name, date)],
            name,
            date,
        ),
    decreases events.len(),
{
    if events.len() > 0 {
        lemma_first_target(events.drop_last(), name, date);
        assert forall|j: int| 0 <= j < first_target(events, name, date) implies !is_target(
            #[trigger] events[j],
            name,
            date,
        ) by {
            if j < events.len() - 1 {
                assert(events[j] == events.drop_last()[j]);
            }
        }
    }
}

/// A place before which no event is a target, and which holds one or is
/// the end, is the first target.
pub proof fn lemma_first_target_is(
    events: Seq<EventView>,
    name: Seq<char>,
    date: DateTimeView,
    i: int,
)
    requires
        0 <= i <= events.len(),
        forall|j: int| 0 <= j < i ==> !is_target(#[trigger] events[j], name, date),
        i < events.len() ==> is_target(events[i], name, date),
    ensures
        first_target(events, name, date) == i,
{
    lemma_first_target(events, name, date);
}

/// Finds the first event that a change is about.
pub fn find_target(events: &Vec<SoonToBeIcsEvent>, name: &str, date: &DateTime) -> (i: usize)
    ensures
        i == first_target(event_views(events@), name@, date@),
        i <= events.len(),
{
    let ghost views = event_views(events@);
    let mut i: usize = 0;
    while i < events.len()
        invariant
            i <= events.len(),
            views == event_views(events@),
            forall|j: int| 0 <= j < i ==> !is_target(#[trigger] views[j], name@, date@),
        decreases events.len() - i,
    {
        if crate::text::same_text(events[i].name.as_str(), name) && events[i].start_time.same_as(
            date,
        ) {
            proof {
                lemma_first_target_is(views, name@, date@, i as int);
            }
            return i;
        }
        i += 1;
    }
    proof {
        lemma_first_target_is(views, name@, date@, i as int);
    }
    i
}

/// Applies one change to the events, and says what it did.  A change about
/// an event that is not there does nothing, which is no error.
pub fn apply_change(
    events: &mut Vec<SoonToBeIcsEvent>,
    change: ChangeInstruction,
    removed_events: RemovedEvents,
) -> (r: Result<ChangeOutcome, String>)
    ensures
        match applied(event_views(old(events)@), change@, removed_events) {
            Ok(after) => r == Ok::<_, String>(
                outcome_of(event_views(old(events)@), change@, removed_events),
            ) && event_views(final(events)@) == after,
            Err(message) => r matches Err(e) && e@ == message && final(events)@ == old(events)@,
        },
{
    let ghost before = event_views(events@);
    if change.add {
        let end_time = match change.endtime {
            Some(time) => time,
            None => {
                return Err(String::from_str(MISSING_END_TIME));
            },
        };
        let end_time = change.date.and_time(end_time);
        let pretty_name = match &change.namesuffix {
            Some(namesuffix) => {
                let mut title = change.name.clone();
                title.append(" ");
                title.append(namesuffix.as_str());
                title
            },
            None => change.name.clone(),
        };
        let location = match change.room {
            Some(room) => room,
            None => String::new(),
        };
        let event = SoonToBeIcsEvent {
            pretty_name,
            name: change.name,
            status: EventStatus::Confirmed,
            start_time: change.date,
            end_time,
            alert_minutes_before: None,
            description: String::from_str(ADDED_DESCRIPTION),
            location,
        };
        events.push(event);
        assert(event_views(events@) =~= before.push(event@));
        return Ok(ChangeOutcome::Added);
    }
    let i = find_target(events, change.name.as_str(), &change.date);
    if i >= events.len() {
        return Ok(ChangeOutcome::Unmatched);
    }
    if change.remove {
        match removed_events {
            RemovedEvents::Cancelled => {
                events[i].status = EventStatus::Cancelled;
            },
            RemovedEvents::Emoji => {
                let mut title = String::from_str(REMOVED_PREFIX);
                title.append(events[i].pretty_name.as_str());
                events[i].pretty_name = title;
            },
            RemovedEvents::Removed => {
                events.remove(i);
                assert(event_views(events@) =~= before.remove(i as int));
                return Ok(ChangeOutcome::Removed);
            },
        }
    }
    if let Some(namesuffix) = &change.namesuffix {
        events[i].pretty_name.append(" ");
        events[i].pretty_name.append(namesuffix.as_str());
    }
    if let Some(room) = change.room {
        events[i].location = room;
    }
    if let Some(time) = change.starttime {
        events[i].start_time = change.date.and_time(time);
    }
    if let Some(time) = change.endtime {
        events[i].end_time = change.date.and_time(time);
    }
    assert(event_views(events@) =~= before.update(
        i as int,
        edited_event(before[i as int], change@, removed_events),
    ));
    Ok(ChangeOutcome::Edited)
}

/// What an optional time of day of a change means; no text is no time.
pub open spec fn optional_time_of(raw: Option<Seq<char>>) -> Result<
    Option<TimeOfDayView>,
    Seq<char>,
> {
    match raw {
        Some(text) => match change_time_of(text) {
            Ok(time) => Ok(Some(time)),
            Err(message) => Err(message),
        },
        None => Ok(None),
    }
}

/// The instruction that a change of the configuration stands for, or why it
/// stands for none: its date is read first, then its start time, then its
/// end time.  Only the local date and time of the date are kept.
pub open spec fn resolved(change: ChangeView) -> Result<InstructionView, Seq<char>> {
    match change_date_of(change.date) {
        Err(message) => Err(message),
        Ok(date) => match optional_time_of(change.starttime) {
            Err(message) => Err(message),
            Ok(starttime) => match optional_time_of(change.endtime) {
                Err(message) => Err(message),
                Ok(endtime) => Ok(
                    InstructionView {
                        add: change.add == Some(true),
                        name: change.name,
                        date: date.0,
                        remove: change.remove == Some(true),
                        namesuffix: change.namesuffix,
                        starttime,
                        endtime,
                        room: change.room,
                    },
                ),
            },
        },
    }
}

/// What a list of changes comes to.
pub struct AppliedChanges {
    /// The events after the changes that were applied.
    pub events: Seq<EventView>,
    /// What each of the changes did, where all of them were applied.
    pub outcomes: Seq<ChangeOutcome>,
    /// The complaint of the first change that could not be read or applied.
    pub error: Option<Seq<char>>,
}

/// The events after a list of changes, each read and applied in turn.
/// Nothing after the first change that cannot be read or applied is looked
/// at; what came before it stays applied.
pub open spec fn applied_all(
    events: Seq<EventView>,
    changes: Seq<ChangeView>,
    removed_events: RemovedEvents,
) -> AppliedChanges
    decreases changes.len(),
{
    if changes.len() == 0 {
        AppliedChanges { events, outcomes: Seq::empty(), error: None }
    } else {
        match resolved(changes.first()) {
            Err(message) => AppliedChanges {
                events,
                outcomes: Seq::empty(),
                error: Some(message),
            },
            Ok(instruction) => match applied(events, instruction, removed_events) {
                Err(message) => AppliedChanges {
                    events,
                    outcomes: Seq::empty(),
                    error: Some(message),
                },
                Ok(after) => {
                    let rest = applied_all(after, changes.drop_first(), removed_events);
                    AppliedChanges {
                        events: rest.events,
                        outcomes: seq![outcome_of(events, instruction, removed_events)]
                            + rest.outcomes,
                        error: rest.error,
                    }
                },
            },
        }
    }
}

/// The result of reading a change as the model sees it.
pub open spec fn instruction_result_view(r: Result<ChangeInstruction, String>) -> Result<
    InstructionView,
    Seq<char>,
> {
    match r {
        Ok(instruction) => Ok(instruction@),
        Err(message) => Err(message@),
    }
}

/// The result of reading an optional time as the model sees it.
pub open spec fn optional_time_result_view(r: Result<Option<TimeOfDay>, String>) -> Result<
    Option<TimeOfDayView>,
    Seq<char>,
> {
    match r {
        Ok(time) => Ok(option_time(time)),
        Err(message) => Err(message@),
    }
}

fn parse_optional_time(raw: &Option<String>) -> (r: Result<Option<TimeOfDay>, String>)
    ensures
        optional_time_result_view(r) == optional_time_of(option_text(*raw)),
{
    match raw {
        Some(text) => match parse_change_time(text.as_str()) {
            Ok(time) => Ok(Some(time)),
            Err(message) => Err(message),
        },
        None => Ok(None),
    }
}

fn clone_text(text: &Option<String>) -> (r: Option<String>)
    ensures
        option_text(r) == option_text(*text),
{
    match text {
        Some(t) => Some(t.clone()),
        None => None,
    }
}

fn is_set(flag: &Option<bool>) -> (r: bool)
    ensures
        r == (*flag == Some(true)),
{
    match flag {
        Some(b) => *b,
        None => false,
    }
}

/// Reads the date and the times of a change.
pub fn resolve_change(change: &Change) -> (r: Result<ChangeInstruction, String>)
    ensures
        instruction_result_view(r) == resolved(change@),
{
    let date = match parse_change_date(change.date.as_str()) {
        Ok(date) => date.local,
        Err(message) => {
            return Err(message);
        },
    };
    let starttime = match parse_optional_time(&change.starttime) {
        Ok(time) => time,
        Err(message) => {
            return Err(message);
        },
    };
    let endtime = match parse_optional_time(&change.endtime) {
        Ok(time) => time,
        Err(message) => {
            return Err(message);
        },
    };
    Ok(
        ChangeInstruction {
            add: is_set(&change.add),
            name: change.name.clone(),
            date,
            remove: is_set(&change.remove),
            namesuffix: clone_text(&change.namesuffix),
            starttime,
            endtime,
            room: clone_text(&change.room),
        },
    )
}

/// Applies the changes to the events, one after the other, and says what
/// each of them did.
pub fn apply_changes(
    events: &mut Vec<SoonToBeIcsEvent>,
    changes: Vec<Change>,
    removed_events: RemovedEvents,
) -> (r: Result<Vec<ChangeOutcome>, String>)
    ensures
        event_views(final(events)@) == applied_all(
            event_views(old(events)@),
            change_views(changes@),
            removed_events,
        ).events,
        match r {
            Ok(outcomes) => {
                &&& applied_all(
                    event_views(old(events)@),
                    change_views(changes@),
                    removed_events,
                ).error is None
                &&& outcomes@ == applied_all(
                    event_views(old(events)@),
                    change_views(changes@),
                    removed_events,
                ).outcomes
            },
            Err(e) => applied_all(
                event_views(old(events)@),
                change_views(changes@),
                removed_events,
            ).error == Some(e@),
        },
{
    let ghost goal = applied_all(event_views(events@), change_views(changes@), removed_events);
    let ghost all = change_views(changes@);
    let mut outcomes: Vec<ChangeOutcome> = Vec::new();
    let mut i: usize = 0;
    assert(all.skip(0) =~= all);
    assert(outcomes@ + goal.outcomes =~= goal.outcomes);
    while i < changes.len()
        invariant
            i <= changes.len(),
            all == change_views(changes@),
            goal == applied_all(event_views(old(events)@), all, removed_events),
            goal.events == applied_all(
                event_views(events@),
                all.skip(i as int),
                removed_events,
            ).events,
            goal.error == applied_all(event_views(events@), all.skip(i as int), removed_events).error,
            goal.outcomes == outcomes@ + applied_all(
                event_views(events@),
                all.skip(i as int),
                removed_events,
            ).outcomes,
        decreases changes.len() - i,
    {
        let ghost now = event_views(events@);
        let ghost done = outcomes@;
        proof {
            assert(all.skip(i as int).first() == changes@[i as int]@);
            assert(all.skip(i as int).drop_first() =~= all.skip(i + 1));
        }
        let instruction = match resolve_change(&changes[i]) {
            Ok(instruction) => instruction,
            Err(message) => {
                return Err(message);
            },
        };
        let ghost step = outcome_of(now, instruction@, removed_events);
        match apply_change(events, instruction, removed_events) {
            Ok(outcome) => {
                outcomes.push(outcome);
            },
            Err(message) => {
                return Err(message);
            },
        }
        proof {
            let rest = applied_all(event_views(events@), all.skip(i + 1), removed_events);
            assert(done + (seq![step] + rest.outcomes) =~= done.push(step) + rest.outcomes);
        }
        i += 1;
    }
    proof {
        assert(outcomes@ + Seq::<ChangeOutcome>::empty() =~= outcomes@);
    }
    Ok(outcomes)
}

/// A change that names an event which is not there changes nothing: the
/// events stay as many as they were, and each stays as it was.
pub proof fn law_unmatched_change_is_ignored(
    events: Seq<EventView>,
    change: InstructionView,
    removed_events: RemovedEvents,
)
    requires
        !change.add,
        forall|i: int|
            0 <= i < events.len() ==> !is_target(#[trigger] events[i], change.name, change.date),
    ensures
        applied(events, change, removed_events) == Ok::<_, Seq<char>>(events),
        outcome_of(events, change, removed_events) == ChangeOutcome::Unmatched,
{
    lemma_first_target(events, change.name, change.date);
}

/// Whether a change can be read, adds nothing, and names an event that is
/// not among the given ones.
pub open spec fn names_no_event(events: Seq<EventView>, change: ChangeView) -> bool {
    match resolved(change) {
        Ok(instruction) => !instruction.add && forall|i: int|
            0 <= i < events.len() ==> !is_target(
                #[trigger] events[i],
                instruction.name,
                instruction.date,
            ),
        Err(_) => false,
    }
}

/// A list of changes none of which adds, and each of which names an event
/// that is not there, changes nothing: the events stay as they were, and
/// every change is reported as unmatched.
pub proof fn law_unmatched_changes_are_ignored(
    events: Seq<EventView>,
    changes: Seq<ChangeView>,
    removed_events: RemovedEvents,
)
    requires
        forall|k: int| 0 <= k < changes.len() ==> names_no_event(events, #[trigger] changes[k]),
    ensures
        applied_all(events, changes, removed_events).events == events,
        applied_all(events, changes, removed_events).error is None,
        applied_all(events, changes, removed_events).outcomes.len() == changes.len(),
        forall|k: int|
            0 <= k < changes.len() ==> #[trigger] applied_all(
                events,
                changes,
                removed_events,
            ).outcomes[k] == ChangeOutcome::Unmatched,
    decreases changes.len(),
{
    if changes.len() > 0 {
        assert(names_no_event(events, changes[0]));
        let instruction = resolved(changes[0])->Ok_0;
        law_unmatched_change_is_ignored(events, instruction, removed_events);
        let rest = changes.drop_first();
        assert forall|k: int| 0 <= k < rest.len() implies names_no_event(
            events,
            #[trigger] rest[k],
        ) by {
            assert(rest[k] == changes[k + 1]);
        }
        law_unmatched_changes_are_ignored(events, rest, removed_events);
    }
}

/// Removing an event that is there, under the policy that removed events
/// leave: there is one event less, namely the first of that name and start.
pub proof fn law_removed_policy_drops_one(events: Seq<EventView>, change: InstructionView)
    requires
        !change.add,
        change.remove,
        exists|i: int|
            0 <= i < events.len() && is_target(#[trigger] events[i], change.name, change.date),
    ensures
        applied(events, change, RemovedEvents::Removed) matches Ok(after) && after.len()
            == events.len() - 1 && after == events.remove(
            first_target(events, change.name, change.date),
        ),
{
    lemma_first_target(events, change.name, change.date);
}

/// Removing an event that is there, under the policy that removed events
/// are cancelled: as many events as before, and the first of that name and
/// start is cancelled.
pub proof fn law_cancelled_policy_flips_status(events: Seq<EventView>, change: InstructionView)
    requires
        !change.add,
        change.remove,
        exists|i: int|
            0 <= i < events.len() && is_target(#[trigger] events[i], change.name, change.date),
    ensures
        applied(events, change, RemovedEvents::Cancelled) matches Ok(after) && after.len()
            == events.len() && after[first_target(events, change.name, change.date)].status
            == EventStatus::Cancelled,
{
    lemma_first_target(events, change.name, change.date);
}

/// Removing an event that is there, under the policy that removed events
/// are marked: as many events as before, and the title of the first of that
/// name and start begins with the mark; without a suffix it is the mark and
/// the old title.
pub proof fn law_emoji_policy_marks_title(events: Seq<EventView>, change: InstructionView)
    requires
        !change.add,
        change.remove,
        exists|i: int|
            0 <= i < events.len() && is_target(#[trigger] events[i], change.name, change.date),
    ensures
        applied(events, change, RemovedEvents::Emoji) matches Ok(after) && after.len()
            == events.len() && REMOVED_PREFIX@.is_prefix_of(
            after[first_target(events, change.name, change.date)].pretty_name,
        ) && (change.namesuffix is None ==> after[first_target(
            events,
            change.name,
            change.date,
        )].pretty_name == REMOVED_PREFIX@ + events[first_target(
            events,
            change.name,
            change.date,
        )].pretty_name),
{
    lemma_first_target(events, change.name, change.date);
    let i = first_target(events, change.name, change.date);
    let marked = REMOVED_PREFIX@ + events[i].pretty_name;
    assert(REMOVED_PREFIX@.is_prefix_of(marked));
    match change.namesuffix {
        Some(suffix) => {
            assert(REMOVED_PREFIX@.is_prefix_of(marked + " "@ + suffix));
        },
        None => {},
    }
}

/// A change that does not add touches no event but the first one that it
/// is about: every event of another name or another start, and every later
/// event of the same name and start, is still there, unchanged, and the
/// events that are there stay in their order.
pub proof fn law_other_events_are_untouched(
    events: Seq<EventView>,
    change: InstructionView,
    removed_events: RemovedEvents,
    j: int,
)
    requires
        !change.add,
        0 <= j < events.len(),
        !is_target(events[j], change.name, change.date) || j != first_target(
            events,
            change.name,
            change.date,
        ),
    ensures
        applied(events, change, removed_events) matches Ok(after) && ({
            let i = first_target(events, change.name, change.date);
            if i < events.len() && change.remove && removed_events == RemovedEvents::Removed {
                after.len() == events.len() - 1 && after[if j < i {
                    j
                } else {
                    j - 1
                }] == events[j]
            } else {
                after.len() == events.len() && after[j] == events[j]
            }
        }),
{
    lemma_first_target(events, change.name, change.date);
}

} // verus!
