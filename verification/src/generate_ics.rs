//! The calendar serializer: renders an ordered list of events as one
//! calendar document.

use crate::datetime::{compact_text, format_compact, DateTime, DateTimeView};
use crate::text::{
    hexadecimal, lemma_substitute_same, lemma_substitute_short, lemma_substitute_twice, push_char,
    push_numeral, push_padded_decimal, replace, replaced, replacing, substitute, zero_padded,
};
use std::collections::hash_map::DefaultHasher;
use std::hash::{Hash, Hasher};
use vstd::prelude::*;
use vstd::string::*;

verus! {

/// Whether an event takes place.
#[derive(Debug, Hash, PartialEq, Eq, Clone, Copy, Structural)]
pub enum EventStatus {
    Confirmed,
    Cancelled,
}

/// An event on its way into a calendar document.
#[derive(Debug, PartialEq, Eq)]
pub struct SoonToBeIcsEvent {
    /// The key by which changes and details find the event.
    pub name: String,
    /// What the calendar shows as the event's title.
    pub pretty_name: String,
    pub status: EventStatus,
    pub start_time: DateTime,
    pub end_time: DateTime,
    /// How long before the start a reminder goes off, if at all.
    pub alert_minutes_before: Option<u16>,
    pub description: String,
    /// Where the event takes place; empty when unknown.
    pub location: String,
}

/// An event as the model sees it.
pub struct EventView {
    pub name: Seq<char>,
    pub pretty_name: Seq<char>,
    pub status: EventStatus,
    pub start_time: DateTimeView,
    pub end_time: DateTimeView,
    pub alert_minutes_before: Option<u16>,
    pub description: Seq<char>,
    pub location: Seq<char>,
}

impl View for SoonToBeIcsEvent {
    type V = EventView;

    open spec fn view(&self) -> EventView {
        EventView {
            name: self.name@,
            pretty_name: self.pretty_name@,
            status: self.status,
            start_time: self.start_time@,
            end_time: self.end_time@,
            alert_minutes_before: self.alert_minutes_before,
            description: self.description@,
            location: self.location@,
        }
    }
}

/// The events of a list as the model sees them.
pub open spec fn event_views(events: Seq<SoonToBeIcsEvent>) -> Seq<EventView> {
    events.map_values(|e: SoonToBeIcsEvent| e@)
}

/// The first lines of every document.
pub const ICS_PREFIX: &'static str =
    "BEGIN:VCALENDAR\nVERSION:2.0\nMETHOD:PUBLISH\nPRODID:https://calendarbot.hawhh.de\n";

/// The time zone that every document defines, and that all of its times
/// are in.
pub const ICS_TIMEZONE: &'static str =
    "BEGIN:VTIMEZONE\nTZID:Europe/Berlin\nBEGIN:DAYLIGHT\nTZOFFSETFROM:+0100\nRRULE:FREQ=YEARLY;BYMONTH=3;BYDAY=-1SU\nDTSTART:19810329T020000\nTZNAME:CEST\nTZOFFSETTO:+0200\nEND:DAYLIGHT\nBEGIN:STANDARD\nTZOFFSETFROM:+0200\nRRULE:FREQ=YEARLY;BYMONTH=10;BYDAY=-1SU\nDTSTART:19961027T030000\nTZNAME:CET\nTZOFFSETTO:+0100\nEND:STANDARD\nEND:VTIMEZONE\n";

/// The last line of every document.
pub const ICS_SUFFIX: &'static str = "END:VCALENDAR\n";

/// The hash of an event: a number that depends on all of its fields and on
/// nothing else.
pub uninterp spec fn event_hash(event: EventView) -> u64;

/// What a single character becomes inside an escaped text value.
pub open spec fn escaped_char(c: char) -> Seq<char> {
    if c == '\\' {
        seq!['\\', '\\']
    } else if c == ',' {
        seq!['\\', ',']
    } else if c == ';' {
        seq!['\\', ';']
    } else if c == '\n' {
        seq!['\\', 'n']
    } else {
        seq![c]
    }
}

/// The escaped form of a text value.
pub open spec fn escaped_text(s: Seq<char>) -> Seq<char> {
    substitute(s, |c: char| escaped_char(c))
}

/// Escapes a text value: a backslash goes in front of every backslash,
/// comma and semicolon, and a line feed becomes a backslash and `n`.
pub fn string_to_ical_escaped_text(text: &str) -> (out: String)
    ensures
        out@ == escaped_text(text@),
{
    let mut out = String::new();
    for c in it: text.chars()
        invariant
            it.seq() == text@,
            out@ == escaped_text(text@.take(it.index() as int)),
    {
        assert(text@.take(it.index() + 1).drop_last() == text@.take(it.index() as int));
        if c == '\\' {
            push_char(&mut out, '\\');
            push_char(&mut out, '\\');
        } else if c == ',' {
            push_char(&mut out, '\\');
            push_char(&mut out, ',');
        } else if c == ';' {
            push_char(&mut out, '\\');
            push_char(&mut out, ';');
        } else if c == '\n' {
            push_char(&mut out, '\\');
            push_char(&mut out, 'n');
        } else {
            push_char(&mut out, c);
        }
    }
    assert(text@.take(text@.len() as int) == text@);
    out
}

/// Escaping is four replacements in a row, backslashes first: backslash by
/// two backslashes, comma by backslash and comma, semicolon by backslash and
/// semicolon, line feed by backslash and `n`.
pub proof fn law_escaping_is_four_replacements(s: Seq<char>)
    ensures
        escaped_text(s) == replaced(
            replaced(
                replaced(replaced(s, '\\', seq!['\\', '\\']), ',', seq!['\\', ',']),
                ';',
                seq!['\\', ';'],
            ),
            '\n',
            seq!['\\', 'n'],
        ),
{
    let r1 = replacing('\\', seq!['\\', '\\']);
    let r2 = replacing(',', seq!['\\', ',']);
    let r3 = replacing(';', seq!['\\', ';']);
    let r4 = replacing('\n', seq!['\\', 'n']);
    let r12 = |c: char| substitute(r1(c), r2);
    let r123 = |c: char| substitute(r12(c), r3);
    let r1234 = |c: char| substitute(r123(c), r4);
    let direct = |c: char| escaped_char(c);
    lemma_substitute_twice(s, r1, r2);
    lemma_substitute_twice(s, r12, r3);
    lemma_substitute_twice(s, r123, r4);
    assert forall|c: char| #[trigger] r1234(c) == direct(c) by {
        lemma_substitute_short('\\', '\\', r2);
        lemma_substitute_short('\\', '\\', r3);
        lemma_substitute_short('\\', '\\', r4);
        lemma_substitute_short('\\', ',', r3);
        lemma_substitute_short('\\', ',', r4);
        lemma_substitute_short('\\', ';', r4);
        lemma_substitute_short(c, c, r2);
        lemma_substitute_short(c, c, r3);
        lemma_substitute_short(c, c, r4);
        assert(seq!['\\'] + seq!['\\'] =~= seq!['\\', '\\']);
        assert(seq!['\\'] + seq![','] =~= seq!['\\', ',']);
        assert(seq!['\\'] + seq![';'] =~= seq!['\\', ';']);
        if c == '\\' {
            assert(r12(c) == seq!['\\', '\\']);
            assert(r123(c) == seq!['\\', '\\']);
        } else if c == ',' {
            assert(r12(c) == seq!['\\', ',']);
            assert(r123(c) == seq!['\\', ',']);
        } else if c == ';' {
            assert(r12(c) == seq![';']);
            assert(r123(c) == seq!['\\', ';']);
        } else if c == '\n' {
            assert(r12(c) == seq!['\n']);
            assert(r123(c) == seq!['\n']);
        } else {
            assert(r12(c) == seq![c]);
            assert(r123(c) == seq![c]);
        }
    }
    lemma_substitute_same(s, r1234, direct);
}

/// A reminder's lead time as a duration: hours and minutes when both are
/// set, hours alone when the minutes are zero, minutes alone otherwise.
pub open spec fn duration_text(minutes_before: int) -> Seq<char> {
    let hours = minutes_before / 60;
    let minutes = minutes_before % 60;
    if hours > 0 && minutes > 0 {
        zero_padded(hours as nat, 2) + seq!['H'] + zero_padded(minutes as nat, 2) + seq!['M']
    } else if hours > 0 {
        zero_padded(hours as nat, 2) + seq!['H']
    } else {
        zero_padded(minutes as nat, 2) + seq!['M']
    }
}

/// A date-time as the document writes it: `YYYYMMDDTHHMMSS`.
pub open spec fn ics_date_text(t: DateTimeView) -> Seq<char> {
    replaced(compact_text(t), ' ', seq!['T'])
}

/// The word for a status.
pub open spec fn status_text(status: EventStatus) -> Seq<char> {
    match status {
        EventStatus::Confirmed => "CONFIRMED"@,
        EventStatus::Cancelled => "CANCELLED"@,
    }
}

/// The reminder block for a lead time.
pub open spec fn valarm_text(minutes_before: int) -> Seq<char> {
    "BEGIN:VALARM\nTRIGGER:-PT"@ + duration_text(minutes_before) + "\nACTION:AUDIO\nEND:VALARM\n"@
}

/// The identifier of an event: its hash in hexadecimal, then the domain.
pub open spec fn uid_text(event: EventView) -> Seq<char> {
    hexadecimal(event_hash(event) as nat) + "@calendarbot.hawhh.de"@
}

/// One line of a component: the key (with its colon), the value and a line
/// feed.
pub open spec fn property_line(key: Seq<char>, value: Seq<char>) -> Seq<char> {
    key + value + "\n"@
}

/// The line for the location; nothing where the event has none.
pub open spec fn location_line(location: Seq<char>) -> Seq<char> {
    if location.len() == 0 {
        Seq::empty()
    } else {
        property_line("LOCATION:"@, escaped_text(location))
    }
}

/// The line for the description; nothing where the event has none.
pub open spec fn description_line(description: Seq<char>) -> Seq<char> {
    if description.len() == 0 {
        Seq::empty()
    } else {
        property_line("DESCRIPTION:"@, escaped_text(description))
    }
}

/// The reminder block; nothing where the event has no reminder.
pub open spec fn alarm_block(alert_minutes_before: Option<u16>) -> Seq<char> {
    match alert_minutes_before {
        Some(minutes_before) => valarm_text(minutes_before as int),
        None => Seq::empty(),
    }
}

/// The component of one event, with plain line feeds.
pub open spec fn vevent_text(event: EventView) -> Seq<char> {
    "BEGIN:VEVENT\n"@ + "TRANSP:OPAQUE\n"@ + property_line("STATUS:"@, status_text(event.status))
        + property_line("SUMMARY:"@, escaped_text(event.pretty_name)) + property_line(
        "DTSTART;TZID=Europe/Berlin:"@,
        ics_date_text(event.start_time),
    ) + property_line("DTEND;TZID=Europe/Berlin:"@, ics_date_text(event.end_time))
        + location_line(event.location) + description_line(event.description)
        + "URL;VALUE=URI:https://telegram.me/HAWHHCalendarBot\n"@ + property_line(
        "UID:"@,
        uid_text(event),
    ) + alarm_block(event.alert_minutes_before) + "END:VEVENT\n"@
}

/// The components of the events, in order.
pub open spec fn vevents_text(events: Seq<EventView>) -> Seq<char>
    decreases events.len(),
{
    if events.len() == 0 {
        Seq::empty()
    } else {
        vevents_text(events.drop_last()) + vevent_text(events.last())
    }
}

/// The whole document with plain line feeds.
pub open spec fn calendar_lines(calendarname: Seq<char>, events: Seq<EventView>) -> Seq<char> {
    ICS_PREFIX@ + "X-WR-CALNAME:@HAWHHCalendarBot ("@ + calendarname + ")\n"@ + ICS_TIMEZONE@
        + vevents_text(events) + ICS_SUFFIX@
}

/// The document for a calendar of the given name: every line ends in a
/// carriage return and a line feed.
pub open spec fn calendar_text(calendarname: Seq<char>, events: Seq<EventView>) -> Seq<char> {
    with_carriage_returns(calendar_lines(calendarname, events))
}

/// A text with a carriage return in front of every line feed.
pub open spec fn with_carriage_returns(lines: Seq<char>) -> Seq<char> {
    replaced(lines, '\n', seq!['\r', '\n'])
}

/// Writes a reminder's lead time as a duration.
pub fn minutes_to_ical_duration(minutes_before: u16) -> (out: String)
    ensures
        out@ == duration_text(minutes_before as int),
{
    let hours = minutes_before / 60;
    let minutes = minutes_before % 60;
    let mut out = String::new();
    if hours > 0 && minutes > 0 {
        push_padded_decimal(&mut out, hours as u64, 2, '0');
        push_char(&mut out, 'H');
        push_padded_decimal(&mut out, minutes as u64, 2, '0');
        push_char(&mut out, 'M');
        assert(out@ =~= duration_text(minutes_before as int));
    } else if hours > 0 {
        push_padded_decimal(&mut out, hours as u64, 2, '0');
        push_char(&mut out, 'H');
        assert(out@ =~= duration_text(minutes_before as int));
    } else {
        push_padded_decimal(&mut out, minutes as u64, 2, '0');
        push_char(&mut out, 'M');
        assert(out@ =~= duration_text(minutes_before as int));
    }
    out
}

/// Appends the reminder block for a lead time.
pub fn create_valarm(output: &mut String, minutes_before: u16)
    ensures
        final(output)@ == old(output)@ + valarm_text(minutes_before as int),
{
    let duration = minutes_to_ical_duration(minutes_before);
    output.append("BEGIN:VALARM\nTRIGGER:-PT");
    output.append(duration.as_str());
    output.append("\nACTION:AUDIO\nEND:VALARM\n");
    assert(output@ =~= old(output)@ + valarm_text(minutes_before as int));
}

/// Writes a date and time as the document has it.
pub fn date_to_ics_date(date: DateTime) -> (out: String)
    ensures
        out@ == ics_date_text(date@),
{
    date.known_valid();
    let compact = format_compact(&date);
    proof {
        reveal_strlit("T");
        assert("T"@ =~= seq!['T']);
    }
    replace(compact.as_str(), ' ', "T")
}

/// Hashes an event.
///
/// Trusted: the result is what std's `DefaultHasher`, freshly made by
/// `DefaultHasher::new`, returns from `finish` once every field has been fed
/// to it through `Hash::hash` in the order of declaration, the two times as
/// chrono's `NaiveDateTime`; it depends on the fields alone.
#[verifier::external_body]
pub(crate) fn calculate_hash(event: &SoonToBeIcsEvent) -> (hash: u64)
    requires
        event.start_time@.is_valid(),
        event.end_time@.is_valid(),
    ensures
        hash == event_hash(event@),
{
    let (a, b) = (&event.start_time, &event.end_time);
    let mut s = DefaultHasher::new();
    event.name.hash(&mut s);
    event.pretty_name.hash(&mut s);
    event.status.hash(&mut s);
    chrono::NaiveDate::from_ymd_opt(a.year, a.month, a.day).unwrap().and_hms_opt(
        a.hour, a.minute, a.second).unwrap().hash(&mut s);
    chrono::NaiveDate::from_ymd_opt(b.year, b.month, b.day).unwrap().and_hms_opt(
        b.hour, b.minute, b.second).unwrap().hash(&mut s);
    event.alert_minutes_before.hash(&mut s);
    event.description.hash(&mut s);
    event.location.hash(&mut s);
    s.finish()
}

/// The hash of an event in hexadecimal.
pub fn calculate_event_hash(event: &SoonToBeIcsEvent) -> (out: String)
    ensures
        out@ == hexadecimal(event_hash(event@) as nat),
{
    event.start_time.known_valid();
    event.end_time.known_valid();
    let hash = calculate_hash(event);
    let mut out = String::new();
    push_numeral(&mut out, hash, 16);
    assert(out@ =~= hexadecimal(event_hash(event@) as nat));
    out
}

/// Joining texts does not depend on where the brackets stand.
pub proof fn lemma_join_assoc(a: Seq<char>, b: Seq<char>, c: Seq<char>)
    ensures
        (a + b) + c == a + (b + c),
{
    assert((a + b) + c =~= a + (b + c));
}

/// Joining the empty text changes nothing.
pub proof fn lemma_join_empty(a: Seq<char>)
    ensures
        a + Seq::<char>::empty() == a,
        Seq::<char>::empty() + a == a,
{
    assert(a + Seq::<char>::empty() =~= a);
    assert(Seq::<char>::empty() + a =~= a);
}

/// In a text with carriage returns no line feed is without a carriage
/// return in front of it.
pub proof fn law_line_feeds_follow_carriage_returns(lines: Seq<char>)
    ensures
        forall|i: int|
            0 <= i < with_carriage_returns(lines).len() && #[trigger] with_carriage_returns(
                lines,
            )[i] == '\n' ==> i > 0 && with_carriage_returns(lines)[i - 1] == '\r',
    decreases lines.len(),
{
    if lines.len() > 0 {
        law_line_feeds_follow_carriage_returns(lines.drop_last());
        let done = with_carriage_returns(lines.drop_last());
        let all = with_carriage_returns(lines);
        let added = replacing('\n', seq!['\r', '\n'])(lines.last());
        assert(all == done + added);
        assert forall|i: int| 0 <= i < all.len() && #[trigger] all[i] == '\n' implies i > 0
            && all[i - 1] == '\r' by {
            if i < done.len() {
                assert(all[i] == done[i]);
                assert(all[i - 1] == done[i - 1]);
            } else if lines.last() == '\n' {
                assert(added[0] == '\r' && added[1] == '\n');
                assert(all[done.len() as int] == added[0]);
                assert(all[done.len() as int + 1] == added[1]);
            } else {
                assert(all[i] == added[i - done.len()]);
            }
        }
    }
}

/// Rendering is a function of what the events hold: lists of events that
/// agree field by field give the same document, and equal events the same
/// identifier.
pub proof fn law_rendering_is_determined(
    calendarname: Seq<char>,
    first: Seq<SoonToBeIcsEvent>,
    second: Seq<SoonToBeIcsEvent>,
)
    requires
        first.len() == second.len(),
        forall|i: int| 0 <= i < first.len() ==> (#[trigger] first[i])@ == second[i]@,
    ensures
        calendar_text(calendarname, event_views(first)) == calendar_text(
            calendarname,
            event_views(second),
        ),
        forall|i: int|
            0 <= i < first.len() ==> uid_text((#[trigger] first[i])@) == uid_text(second[i]@),
{
    assert(event_views(first) =~= event_views(second));
}

/// Appends one line of a component.
pub fn push_property(output: &mut String, key: &str, value: &str)
    ensures
        final(output)@ == old(output)@ + property_line(key@, value@),
{
    output.append(key);
    output.append(value);
    output.append("\n");
    proof {
        lemma_join_assoc(old(output)@, key@, value@);
        lemma_join_assoc(old(output)@, key@ + value@, "\n"@);
    }
}

/// Appends the component of one event.
pub fn event_as_ics_vevent_string(output: &mut String, event: &SoonToBeIcsEvent)
    ensures
        final(output)@ == old(output)@ + vevent_text(event@),
{
    let ghost before = output@;
    let ghost e = event@;
    output.append("BEGIN:VEVENT\n");
    let ghost mut acc = "BEGIN:VEVENT\n"@;

    output.append("TRANSP:OPAQUE\n");
    proof {
        lemma_join_assoc(before, acc, "TRANSP:OPAQUE\n"@);
        acc = acc + "TRANSP:OPAQUE\n"@;
    }

    match event.status {
        EventStatus::Confirmed => push_property(output, "STATUS:", "CONFIRMED"),
        EventStatus::Cancelled => push_property(output, "STATUS:", "CANCELLED"),
    }
    proof {
        let line = property_line("STATUS:"@, status_text(e.status));
        lemma_join_assoc(before, acc, line);
        acc = acc + line;
    }

    let summary = string_to_ical_escaped_text(event.pretty_name.as_str());
    push_property(output, "SUMMARY:", summary.as_str());
    proof {
        let line = property_line("SUMMARY:"@, escaped_text(e.pretty_name));
        lemma_join_assoc(before, acc, line);
        acc = acc + line;
    }

    let start = date_to_ics_date(event.start_time);
    push_property(output, "DTSTART;TZID=Europe/Berlin:", start.as_str());
    proof {
        let line = property_line("DTSTART;TZID=Europe/Berlin:"@, ics_date_text(e.start_time));
        lemma_join_assoc(before, acc, line);
        acc = acc + line;
    }

    let end = date_to_ics_date(event.end_time);
    push_property(output, "DTEND;TZID=Europe/Berlin:", end.as_str());
    proof {
        let line = property_line("DTEND;TZID=Europe/Berlin:"@, ics_date_text(e.end_time));
        lemma_join_assoc(before, acc, line);
        acc = acc + line;
    }

    if !event.location.as_str().is_empty() {
        let location = string_to_ical_escaped_text(event.location.as_str());
        push_property(output, "LOCATION:", location.as_str());
        proof {
            lemma_join_assoc(before, acc, location_line(e.location));
        }
    } else {
        proof {
            lemma_join_empty(acc);
        }
    }
    proof {
        acc = acc + location_line(e.location);
    }

    if !event.description.as_str().is_empty() {
        let description = string_to_ical_escaped_text(event.description.as_str());
        push_property(output, "DESCRIPTION:", description.as_str());
        proof {
            lemma_join_assoc(before, acc, description_line(e.description));
        }
    } else {
        proof {
            lemma_join_empty(acc);
        }
    }
    proof {
        acc = acc + description_line(e.description);
    }

    output.append("URL;VALUE=URI:https://telegram.me/HAWHHCalendarBot\n");
    proof {
        lemma_join_assoc(before, acc, "URL;VALUE=URI:https://telegram.me/HAWHHCalendarBot\n"@);
        acc = acc + "URL;VALUE=URI:https://telegram.me/HAWHHCalendarBot\n"@;
    }

    let mut uid = calculate_event_hash(event);
    uid.append("@calendarbot.hawhh.de");
    push_property(output, "UID:", uid.as_str());
    proof {
        let line = property_line("UID:"@, uid_text(e));
        lemma_join_assoc(before, acc, line);
        acc = acc + line;
    }

    if let Some(minutes_before) = event.alert_minutes_before {
        create_valarm(output, minutes_before);
        proof {
            lemma_join_assoc(before, acc, alarm_block(e.alert_minutes_before));
        }
    } else {
        proof {
            lemma_join_empty(acc);
        }
    }
    proof {
        acc = acc + alarm_block(e.alert_minutes_before);
    }

    output.append("END:VEVENT\n");
    proof {
        lemma_join_assoc(before, acc, "END:VEVENT\n"@);
    }
}

/// Renders the calendar of the given name with the given events, in the
/// order in which they come.
pub fn generate_ics(calendarname: &str, events: &[SoonToBeIcsEvent]) -> (out: String)
    ensures
        out@ == calendar_text(calendarname@, event_views(events@)),
{
    let mut result = String::from_str(ICS_PREFIX);
    result.append("X-WR-CALNAME:@HAWHHCalendarBot (");
    result.append(calendarname);
    result.append(")\n");
    result.append(ICS_TIMEZONE);
    let ghost head = ICS_PREFIX@ + "X-WR-CALNAME:@HAWHHCalendarBot ("@ + calendarname@ + ")\n"@
        + ICS_TIMEZONE@;
    let ghost views = event_views(events@);
    proof {
        lemma_join_empty(head);
    }

    let mut i: usize = 0;
    while i < events.len()
        invariant
            i <= events.len(),
            views == event_views(events@),
            result@ == head + vevents_text(views.take(i as int)),
        decreases events.len() - i,
    {
        event_as_ics_vevent_string(&mut result, &events[i]);
        proof {
            assert(views.take(i + 1).drop_last() =~= views.take(i as int));
            assert(views.take(i + 1).last() == events@[i as int]@);
            lemma_join_assoc(
                head,
                vevents_text(views.take(i as int)),
                vevent_text(events@[i as int]@),
            );
        }
        i += 1;
    }
    assert(views.take(i as int) =~= views);
    result.append(ICS_SUFFIX);
    proof {
        reveal_strlit("\r\n");
        assert("\r\n"@ =~= seq!['\r', '\n']);
    }
    replace(result.as_str(), '\n', "\r\n")
}

} // verus!
