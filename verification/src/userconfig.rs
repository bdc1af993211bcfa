//! What a recipient's configuration holds, and how its texts are read.

use crate::datetime::{
    berlin_clock, berlin_clock_at, parse_clock, parse_minute_stamp, read_clock, read_minute_stamp,
    DateTime, DateTimeView, TimeOfDay, TimeOfDayView, ZonedDateTime,
};
use crate::text::{replace, replaced, same_text};
use vstd::prelude::*;
use vstd::string::*;

verus! {

/// A recipient's configuration together with the chat it belongs to.
#[derive(Debug)]
pub struct UserconfigFile {
    pub chat: Chat,
    pub config: Userconfig,
}

/// The chat that a configuration belongs to: the recipient.
#[derive(Debug)]
pub struct Chat {
    pub id: i64,
    pub first_name: String,
}

/// How a change that removes an event shows in the calendar.
#[derive(Debug, PartialEq, Eq, Clone, Copy, Structural)]
pub enum RemovedEvents {
    /// The event stays and is marked as cancelled.
    Cancelled,
    /// The event leaves the calendar.
    Removed,
    /// The event stays with a warning sign in front of its title.
    Emoji,
}

/// What a recipient adds to every event of one name.
#[derive(Debug, PartialEq, Eq)]
pub struct EventDetails {
    pub alert_minutes_before: Option<u16>,
    pub notes: Option<String>,
}

/// An event group that a recipient has subscribed to, with the details for
/// its events.
#[derive(Debug)]
pub struct Subscription {
    pub name: String,
    pub details: EventDetails,
}

/// What a recipient has configured.
#[derive(Debug)]
pub struct Userconfig {
    pub calendarfile_suffix: String,
    pub changes: Vec<Change>,
    pub events: Vec<Subscription>,
    /// One of `cancelled`, `removed`, `emoji`; `cancelled` when absent.
    pub removed_events: Option<String>,
}

/// A change as the configuration writes it: date and times are still text.
#[derive(Debug)]
pub struct Change {
    pub add: Option<bool>,
    pub name: String,
    pub date: String,
    pub remove: Option<bool>,
    pub namesuffix: Option<String>,
    pub starttime: Option<String>,
    pub endtime: Option<String>,
    pub room: Option<String>,
}

/// A recipient's details for an event as the model sees them.
pub struct DetailsView {
    pub alert_minutes_before: Option<u16>,
    pub notes: Option<Seq<char>>,
}

impl View for EventDetails {
    type V = DetailsView;

    open spec fn view(&self) -> DetailsView {
        DetailsView {
            alert_minutes_before: self.alert_minutes_before,
            notes: option_text(self.notes),
        }
    }
}

/// A subscription as the model sees it.
pub struct SubscriptionView {
    pub name: Seq<char>,
    pub details: DetailsView,
}

impl View for Subscription {
    type V = SubscriptionView;

    open spec fn view(&self) -> SubscriptionView {
        SubscriptionView { name: self.name@, details: self.details@ }
    }
}

/// The subscriptions of a list as the model sees them.
pub open spec fn subscription_views(subscriptions: Seq<Subscription>) -> Seq<SubscriptionView> {
    subscriptions.map_values(|s: Subscription| s@)
}

/// A configuration as the model sees it.
pub struct UserconfigView {
    pub calendarfile_suffix: Seq<char>,
    pub changes: Seq<ChangeView>,
    pub events: Seq<SubscriptionView>,
    pub removed_events: Option<Seq<char>>,
}

impl View for Userconfig {
    type V = UserconfigView;

    open spec fn view(&self) -> UserconfigView {
        UserconfigView {
            calendarfile_suffix: self.calendarfile_suffix@,
            changes: change_views(self.changes@),
            events: subscription_views(self.events@),
            removed_events: option_text(self.removed_events),
        }
    }
}

/// A chat as the model sees it.
pub struct ChatView {
    pub id: i64,
    pub first_name: Seq<char>,
}

impl View for Chat {
    type V = ChatView;

    open spec fn view(&self) -> ChatView {
        ChatView { id: self.id, first_name: self.first_name@ }
    }
}

/// A configuration with its chat as the model sees them.
pub struct UserconfigFileView {
    pub chat: ChatView,
    pub config: UserconfigView,
}

impl View for UserconfigFile {
    type V = UserconfigFileView;

    open spec fn view(&self) -> UserconfigFileView {
        UserconfigFileView { chat: self.chat@, config: self.config@ }
    }
}

/// A change of the configuration as the model sees it.
pub struct ChangeView {
    pub add: Option<bool>,
    pub name: Seq<char>,
    pub date: Seq<char>,
    pub remove: Option<bool>,
    pub namesuffix: Option<Seq<char>>,
    pub starttime: Option<Seq<char>>,
    pub endtime: Option<Seq<char>>,
    pub room: Option<Seq<char>>,
}

impl View for Change {
    type V = ChangeView;

    open spec fn view(&self) -> ChangeView {
        ChangeView {
            add: self.add,
            name: self.name@,
            date: self.date@,
            remove: self.remove,
            namesuffix: option_text(self.namesuffix),
            starttime: option_text(self.starttime),
            endtime: option_text(self.endtime),
            room: option_text(self.room),
        }
    }
}

/// The changes of a list as the model sees them.
pub open spec fn change_views(changes: Seq<Change>) -> Seq<ChangeView> {
    changes.map_values(|c: Change| c@)
}

/// The policy that a token names, if it names one.
pub open spec fn removed_events_of(token: Seq<char>) -> Option<RemovedEvents> {
    if token == "cancelled"@ {
        Some(RemovedEvents::Cancelled)
    } else if token == "removed"@ {
        Some(RemovedEvents::Removed)
    } else if token == "emoji"@ {
        Some(RemovedEvents::Emoji)
    } else {
        None
    }
}

/// The policy of a configuration: `cancelled` unless a token says otherwise.
pub open spec fn configured_removed_events(token: Option<Seq<char>>) -> Option<RemovedEvents> {
    match token {
        Some(t) => removed_events_of(t),
        None => Some(RemovedEvents::Cancelled),
    }
}

/// The complaint about a token that names no policy.
pub open spec fn removed_events_error(token: Seq<char>) -> Seq<char> {
    "could not parse removed events "@ + token
}

/// Reads the token for a policy: `cancelled`, `removed` or `emoji`.
pub fn parse_removed_events(string: &str) -> (r: Result<RemovedEvents, String>)
    ensures
        match r {
            Ok(policy) => removed_events_of(string@) == Some(policy),
            Err(e) => removed_events_of(string@) is None && e@ == removed_events_error(string@),
        },
{
    if same_text(string, "cancelled") {
        Ok(RemovedEvents::Cancelled)
    } else if same_text(string, "removed") {
        Ok(RemovedEvents::Removed)
    } else if same_text(string, "emoji") {
        Ok(RemovedEvents::Emoji)
    } else {
        let mut message = String::from_str("could not parse removed events ");
        message.append(string);
        Err(message)
    }
}

/// An optional string as the model sees it.
pub open spec fn option_text(s: Option<String>) -> Option<Seq<char>> {
    match s {
        Some(t) => Some(t@),
        None => None,
    }
}

impl Userconfig {
    /// How removed events show in this recipient's calendar.
    pub fn removed_events(&self) -> (r: Result<RemovedEvents, String>)
        ensures
            match r {
                Ok(policy) => configured_removed_events(self@.removed_events) == Some(policy),
                Err(e) => self@.removed_events matches Some(token) && removed_events_of(token)
                    is None && e@ == removed_events_error(token),
            },
    {
        match &self.removed_events {
            Some(string) => parse_removed_events(string.as_str()),
            None => Ok(RemovedEvents::Cancelled),
        }
    }
}

/// The date and time that six fields name.
pub open spec fn stamp_view(fields: (i32, u32, u32, u32, u32, u32)) -> DateTimeView {
    DateTimeView {
        year: fields.0 as int,
        month: fields.1 as int,
        day: fields.2 as int,
        hour: fields.3 as int,
        minute: fields.4 as int,
        second: fields.5 as int,
    }
}

/// The date and time that the first six of seven fields name.
pub open spec fn local_view(fields: (i32, u32, u32, u32, u32, u32, i32)) -> DateTimeView {
    stamp_view((fields.0, fields.1, fields.2, fields.3, fields.4, fields.5))
}

/// The time of day that three fields name.
pub open spec fn clock_view(fields: (u32, u32, u32)) -> TimeOfDayView {
    TimeOfDayView { hour: fields.0 as int, minute: fields.1 as int, second: fields.2 as int }
}

/// The complaint about a date that could not be read at the given stage.
pub open spec fn date_error(stage: Seq<char>, raw: Seq<char>, cause: Seq<char>) -> Seq<char> {
    "parse_datetime failed "@ + stage + " "@ + raw + " Error: "@ + cause
}

/// The complaint about a time of day that could not be read.
pub open spec fn time_error(raw: Seq<char>, cause: Seq<char>) -> Seq<char> {
    "parse_time failed "@ + raw + " Error: "@ + cause
}

/// What the date of a change means.  The text gives a moment in universal
/// time as `year-month-dayThour:minute`; the result is what the clocks of
/// Berlin show at that moment, and how many seconds they are ahead.
pub open spec fn change_date_of(raw: Seq<char>) -> Result<(DateTimeView, i32), Seq<char>> {
    match read_minute_stamp(replaced(raw, 'T', seq![' '])) {
        Err(cause) => Err(date_error("naive"@, raw, cause)),
        Ok(utc) => if !stamp_view(utc).is_valid() {
            Err(date_error("naive"@, raw, "input is out of range"@))
        } else {
            match berlin_clock_at(stamp_view(utc)) {
                Some(local) => if local_view(local).is_valid() {
                    Ok((local_view(local), local.6))
                } else {
                    Err(date_error("fixed_offset"@, raw, "input is out of range"@))
                },
                None => Err(date_error("fixed_offset"@, raw, "input is out of range"@)),
            }
        },
    }
}

/// What the time of day of a change means: the text reads `hour:minute`.
pub open spec fn change_time_of(raw: Seq<char>) -> Result<TimeOfDayView, Seq<char>> {
    match read_clock(raw) {
        Err(cause) => Err(time_error(raw, cause)),
        Ok(clock) => if clock_view(clock).is_valid() {
            Ok(clock_view(clock))
        } else {
            Err(time_error(raw, "input is out of range"@))
        },
    }
}

/// The result of reading a date as the model sees it.
pub open spec fn zoned_result_view(r: Result<ZonedDateTime, String>) -> Result<
    (DateTimeView, i32),
    Seq<char>,
> {
    match r {
        Ok(z) => Ok((z.local@, z.offset_seconds)),
        Err(e) => Err(e@),
    }
}

/// The result of reading a time of day as the model sees it.
pub open spec fn time_result_view(r: Result<TimeOfDay, String>) -> Result<
    TimeOfDayView,
    Seq<char>,
> {
    match r {
        Ok(t) => Ok(t@),
        Err(e) => Err(e@),
    }
}

fn date_error_message(stage: &str, raw: &str, cause: &str) -> (message: String)
    ensures
        message@ == date_error(stage@, raw@, cause@),
{
    let mut message = String::from_str("parse_datetime failed ");
    message.append(stage);
    message.append(" ");
    message.append(raw);
    message.append(" Error: ");
    message.append(cause);
    message
}

fn time_error_message(raw: &str, cause: &str) -> (message: String)
    ensures
        message@ == time_error(raw@, cause@),
{
    let mut message = String::from_str("parse_time failed ");
    message.append(raw);
    message.append(" Error: ");
    message.append(cause);
    message
}

/// Reads the date of a change.
pub fn parse_change_date(raw: &str) -> (r: Result<ZonedDateTime, String>)
    ensures
        zoned_result_view(r) == change_date_of(raw@),
{
    proof {
        reveal_strlit(" ");
        assert(" "@ =~= seq![' ']);
    }
    let tless = replace(raw, 'T', " ");
    match parse_minute_stamp(tless.as_str()) {
        Err(cause) => Err(date_error_message("naive", raw, cause.as_str())),
        Ok(f) => match DateTime::from_ymd_hms_opt(f.0, f.1, f.2, f.3, f.4, f.5) {
            None => Err(date_error_message("naive", raw, "input is out of range")),
            Some(utc) => match berlin_clock(&utc) {
                None => Err(date_error_message("fixed_offset", raw, "input is out of range")),
                Some(g) => match DateTime::from_ymd_hms_opt(g.0, g.1, g.2, g.3, g.4, g.5) {
                    None => Err(
                        date_error_message("fixed_offset", raw, "input is out of range"),
                    ),
                    Some(local) => Ok(ZonedDateTime { local, offset_seconds: g.6 }),
                },
            },
        },
    }
}

/// Reads the time of day of a change.
pub fn parse_change_time(raw: &str) -> (r: Result<TimeOfDay, String>)
    ensures
        time_result_view(r) == change_time_of(raw@),
{
    match parse_clock(raw) {
        Err(cause) => Err(time_error_message(raw, cause.as_str())),
        Ok(f) => match TimeOfDay::from_hms_opt(f.0, f.1, f.2) {
            None => Err(time_error_message(raw, "input is out of range")),
            Some(time) => Ok(time),
        },
    }
}

} // verus!
