//! Calendar dates and wall-clock times, to the second, in the proleptic
//! Gregorian calendar.  Values of [`TimeOfDay`] and [`DateTime`] are valid by
//! construction.

use crate::text::{decimal, push_char, push_numeral, push_padded_decimal, zero_padded};
use chrono::{Datelike, Offset, TimeZone, Timelike};
use vstd::prelude::*;

verus! {

/// The earliest year a [`DateTime`] can hold.
pub const MIN_YEAR: i32 = -262143;

/// The latest year a [`DateTime`] can hold.
pub const MAX_YEAR: i32 = 262142;

/// Whether the year has a 29th of February: every fourth year, but of the
/// hundreds only every fourth.
pub open spec fn is_leap_year(year: int) -> bool {
    year % 4 == 0 && (year % 100 != 0 || year % 400 == 0)
}

/// The number of days of a month of a year.
pub open spec fn days_in_month(year: int, month: int) -> int {
    if month == 2 {
        if is_leap_year(year) {
            29
        } else {
            28
        }
    } else if month == 4 || month == 6 || month == 9 || month == 11 {
        30
    } else {
        31
    }
}

/// A time of day as the model sees it.
pub struct TimeOfDayView {
    pub hour: int,
    pub minute: int,
    pub second: int,
}

/// A date and time as the model sees it.
pub struct DateTimeView {
    pub year: int,
    pub month: int,
    pub day: int,
    pub hour: int,
    pub minute: int,
    pub second: int,
}

impl TimeOfDayView {
    /// Whether a clock can show this time.
    pub open spec fn is_valid(self) -> bool {
        0 <= self.hour < 24 && 0 <= self.minute < 60 && 0 <= self.second < 60
    }
}

impl DateTimeView {
    /// Whether this is a day of the calendar, in a year that a [`DateTime`]
    /// can hold, at a time that a clock can show.
    pub open spec fn is_valid(self) -> bool {
        &&& MIN_YEAR <= self.year <= MAX_YEAR
        &&& 1 <= self.month <= 12
        &&& 1 <= self.day <= days_in_month(self.year, self.month)
        &&& self.time().is_valid()
    }

    /// The time of day of this value.
    pub open spec fn time(self) -> TimeOfDayView {
        TimeOfDayView { hour: self.hour, minute: self.minute, second: self.second }
    }

    /// The same calendar day at another time of day.
    pub open spec fn with_time(self, time: TimeOfDayView) -> DateTimeView {
        DateTimeView { hour: time.hour, minute: time.minute, second: time.second, ..self }
    }

    /// Chronological order: by year, then month, day, hour, minute, second.
    pub open spec fn is_before(self, other: DateTimeView) -> bool {
        self.year < other.year || (self.year == other.year && (self.month < other.month || (
        self.month == other.month && (self.day < other.day || (self.day == other.day && (self.hour
            < other.hour || (self.hour == other.hour && (self.minute < other.minute || (self.minute
            == other.minute && self.second < other.second)))))))))
    }
}

/// The year as a date-time in compact form shows it: four digits from the
/// year 0 to the year 9999, otherwise a sign and at least four digits.
pub open spec fn year_text(year: int) -> Seq<char> {
    if 0 <= year <= 9999 {
        zero_padded(year as nat, 4)
    } else if year > 9999 {
        seq!['+'] + decimal(year as nat)
    } else {
        seq!['-'] + zero_padded((-year) as nat, 4)
    }
}

/// A date-time in compact form: year, month, day, a space, hour, minute and
/// second, each but the year in two digits.
pub open spec fn compact_text(t: DateTimeView) -> Seq<char> {
    year_text(t.year) + zero_padded(t.month as nat, 2) + zero_padded(t.day as nat, 2) + seq![' ']
        + zero_padded(t.hour as nat, 2) + zero_padded(t.minute as nat, 2) + zero_padded(
        t.second as nat,
        2,
    )
}

/// What reading a text as `year-month-day hour:minute` gives: the fields
/// read (year, month, day, hour, minute, second), or the parser's complaint.
pub uninterp spec fn read_minute_stamp(text: Seq<char>) -> Result<
    (i32, u32, u32, u32, u32, u32),
    Seq<char>,
>;

/// What reading a text as `hour:minute` gives: the fields read (hour,
/// minute, second), or the parser's complaint.
pub uninterp spec fn read_clock(text: Seq<char>) -> Result<(u32, u32, u32), Seq<char>>;

/// What the clocks of Berlin show at a moment given in universal time:
/// year, month, day, hour, minute, second, and how many seconds those clocks
/// are ahead of universal time; nothing where the calendar ends before that
/// local day.
pub uninterp spec fn berlin_clock_at(utc: DateTimeView) -> Option<
    (i32, u32, u32, u32, u32, u32, i32),
>;

/// A wall-clock time of day.
#[derive(Clone, Copy, Debug, PartialEq, Eq, Hash)]
pub struct TimeOfDay {
    hour: u32,
    minute: u32,
    second: u32,
}

/// A calendar day together with a time of day.
#[derive(Clone, Copy, Debug, PartialEq, Eq, Hash)]
pub struct DateTime {
    pub(crate) year: i32,
    pub(crate) month: u32,
    pub(crate) day: u32,
    pub(crate) hour: u32,
    pub(crate) minute: u32,
    pub(crate) second: u32,
}

impl View for TimeOfDay {
    type V = TimeOfDayView;

    closed spec fn view(&self) -> TimeOfDayView {
        TimeOfDayView {
            hour: self.hour as int,
            minute: self.minute as int,
            second: self.second as int,
        }
    }
}

impl View for DateTime {
    type V = DateTimeView;

    closed spec fn view(&self) -> DateTimeView {
        DateTimeView {
            year: self.year as int,
            month: self.month as int,
            day: self.day as int,
            hour: self.hour as int,
            minute: self.minute as int,
            second: self.second as int,
        }
    }
}

/// Whether `year` has a 29th of February.
pub fn leap_year(year: i32) -> (r: bool)
    requires
        MIN_YEAR <= year <= MAX_YEAR,
    ensures
        r == is_leap_year(year as int),
{
    let y: i32 = if year < 0 {
        -year
    } else {
        year
    };
    assert((year as int) % 4 == 0 <==> (y as int) % 4 == 0);
    assert((year as int) % 100 == 0 <==> (y as int) % 100 == 0);
    assert((year as int) % 400 == 0 <==> (y as int) % 400 == 0);
    y % 4 == 0 && (y % 100 != 0 || y % 400 == 0)
}

/// The number of days of a month.
pub fn month_length(year: i32, month: u32) -> (r: u32)
    requires
        MIN_YEAR <= year <= MAX_YEAR,
    ensures
        r == days_in_month(year as int, month as int),
{
    if month == 2 {
        if leap_year(year) {
            29
        } else {
            28
        }
    } else if month == 4 || month == 6 || month == 9 || month == 11 {
        30
    } else {
        31
    }
}

impl TimeOfDay {
    #[verifier::type_invariant]
    spec fn inv(self) -> bool {
        self@.is_valid()
    }

    /// The time `hour:minute:second`, if there is such a time of day.
    pub fn from_hms_opt(hour: u32, minute: u32, second: u32) -> (r: Option<TimeOfDay>)
        ensures
            r.is_some() == (TimeOfDayView {
                hour: hour as int,
                minute: minute as int,
                second: second as int,
            }).is_valid(),
            r matches Some(t) ==> t@ == (TimeOfDayView {
                hour: hour as int,
                minute: minute as int,
                second: second as int,
            }),
    {
        if hour < 24 && minute < 60 && second < 60 {
            Some(TimeOfDay { hour, minute, second })
        } else {
            None
        }
    }

    /// The hour.
    pub fn hour(&self) -> (r: u32)
        ensures
            r == self@.hour,
    {
        self.hour
    }

    /// The minute.
    pub fn minute(&self) -> (r: u32)
        ensures
            r == self@.minute,
    {
        self.minute
    }

    /// The second.
    pub fn second(&self) -> (r: u32)
        ensures
            r == self@.second,
    {
        self.second
    }

    /// Every time of day is valid: a no-op that tells the verifier so.
    pub fn known_valid(&self)
        ensures
            self@.is_valid(),
    {
        proof {
            use_type_invariant(self);
        }
    }
}

impl DateTime {
    #[verifier::type_invariant]
    spec fn inv(self) -> bool {
        self@.is_valid()
    }

    /// The given day at the given time, if the calendar has such a day and
    /// the clock such a time.
    pub fn from_ymd_hms_opt(
        year: i32,
        month: u32,
        day: u32,
        hour: u32,
        minute: u32,
        second: u32,
    ) -> (r: Option<DateTime>)
        ensures
            r.is_some() == (DateTimeView {
                year: year as int,
                month: month as int,
                day: day as int,
                hour: hour as int,
                minute: minute as int,
                second: second as int,
            }).is_valid(),
            r matches Some(t) ==> t@ == (DateTimeView {
                year: year as int,
                month: month as int,
                day: day as int,
                hour: hour as int,
                minute: minute as int,
                second: second as int,
            }),
    {
        if MIN_YEAR <= year && year <= MAX_YEAR && 1 <= month && month <= 12 && 1 <= day && day
            <= month_length(year, month) && hour < 24 && minute < 60 && second < 60 {
            Some(DateTime { year, month, day, hour, minute, second })
        } else {
            None
        }
    }

    /// The year.
    pub fn year(&self) -> (r: i32)
        ensures
            r == self@.year,
    {
        self.year
    }

    /// The month, from 1.
    pub fn month(&self) -> (r: u32)
        ensures
            r == self@.month,
    {
        self.month
    }

    /// The day of the month, from 1.
    pub fn day(&self) -> (r: u32)
        ensures
            r == self@.day,
    {
        self.day
    }

    /// The hour.
    pub fn hour(&self) -> (r: u32)
        ensures
            r == self@.hour,
    {
        self.hour
    }

    /// The minute.
    pub fn minute(&self) -> (r: u32)
        ensures
            r == self@.minute,
    {
        self.minute
    }

    /// The second.
    pub fn second(&self) -> (r: u32)
        ensures
            r == self@.second,
    {
        self.second
    }

    /// The time of day of this value.
    pub fn time(&self) -> (r: TimeOfDay)
        ensures
            r@ == self@.time(),
    {
        proof {
            use_type_invariant(self);
        }
        TimeOfDay { hour: self.hour, minute: self.minute, second: self.second }
    }

    /// The same calendar day at another time of day.
    pub fn and_time(&self, time: TimeOfDay) -> (r: DateTime)
        ensures
            r@ == self@.with_time(time@),
    {
        proof {
            use_type_invariant(self);
            use_type_invariant(&time);
        }
        DateTime {
            year: self.year,
            month: self.month,
            day: self.day,
            hour: time.hour,
            minute: time.minute,
            second: time.second,
        }
    }

    /// Whether both values name the same second.
    pub fn same_as(&self, other: &DateTime) -> (r: bool)
        ensures
            r == (self@ == other@),
    {
        self.year == other.year && self.month == other.month && self.day == other.day
            && self.hour == other.hour && self.minute == other.minute && self.second
            == other.second
    }

    /// Whether this value is earlier than `other`.
    pub fn earlier_than(&self, other: &DateTime) -> (r: bool)
        ensures
            r == self@.is_before(other@),
    {
        self.year < other.year || (self.year == other.year && (self.month < other.month || (
        self.month == other.month && (self.day < other.day || (self.day == other.day && (self.hour
            < other.hour || (self.hour == other.hour && (self.minute < other.minute || (self.minute
            == other.minute && self.second < other.second)))))))))
    }

    /// Every value is valid: a no-op that tells the verifier so.
    pub fn known_valid(&self)
        ensures
            self@.is_valid(),
    {
        proof {
            use_type_invariant(self);
        }
    }
}

/// A result with its error message taken as plain text.
pub open spec fn with_error_text<T>(r: Result<T, String>) -> Result<T, Seq<char>> {
    match r {
        Ok(v) => Ok(v),
        Err(e) => Err(e@),
    }
}

/// A wall-clock date and time together with the distance of that clock from
/// universal time.
#[derive(Clone, Copy, Debug, PartialEq, Eq)]
pub struct ZonedDateTime {
    /// What the local clock shows.
    pub local: DateTime,
    /// Seconds that the local clock is ahead of universal time.
    pub offset_seconds: i32,
}

/// The distance of a clock from universal time as a date and time with a
/// zone shows it: a sign, hours and minutes, the seconds rounded to the
/// nearest minute.
pub open spec fn offset_text(offset_seconds: int) -> Seq<char> {
    let distance = if offset_seconds < 0 {
        -offset_seconds
    } else {
        offset_seconds
    };
    let minutes = (distance + 30) / 60;
    seq![if offset_seconds < 0 {
        '-'
    } else {
        '+'
    }] + zero_padded((minutes / 60) as nat, 2) + seq![':'] + zero_padded(
        (minutes % 60) as nat,
        2,
    )
}

/// A date and time with its zone in the form
/// `year-month-dayThour:minute:second+hours:minutes`.
pub open spec fn zoned_text(local: DateTimeView, offset_seconds: int) -> Seq<char> {
    year_text(local.year) + seq!['-'] + zero_padded(local.month as nat, 2) + seq!['-']
        + zero_padded(local.day as nat, 2) + seq!['T'] + zero_padded(local.hour as nat, 2) + seq![
        ':',
    ] + zero_padded(local.minute as nat, 2) + seq![':'] + zero_padded(local.second as nat, 2)
        + offset_text(offset_seconds)
}

/// Appends a year: in four digits from the year 0 to the year 9999,
/// otherwise with a sign and at least four digits.
pub fn push_year(out: &mut String, year: i32)
    ensures
        final(out)@ == old(out)@ + year_text(year as int),
{
    let ghost before = out@;
    if 0 <= year && year <= 9999 {
        push_padded_decimal(out, year as u64, 4, '0');
    } else if year > 9999 {
        push_char(out, '+');
        push_numeral(out, year as u64, 10);
        assert(out@ =~= before + year_text(year as int));
    } else {
        push_char(out, '-');
        push_padded_decimal(out, (-(year as i64)) as u64, 4, '0');
        assert(out@ =~= before + year_text(year as int));
    }
}

impl ZonedDateTime {
    /// Writes the value in the form
    /// `year-month-dayThour:minute:second+hours:minutes`.
    pub fn to_rfc3339(&self) -> (out: String)
        ensures
            out@ == zoned_text(self.local@, self.offset_seconds as int),
    {
        let t = &self.local;
        let mut out = String::new();
        push_year(&mut out, t.year());
        push_char(&mut out, '-');
        push_padded_decimal(&mut out, t.month() as u64, 2, '0');
        push_char(&mut out, '-');
        push_padded_decimal(&mut out, t.day() as u64, 2, '0');
        push_char(&mut out, 'T');
        push_padded_decimal(&mut out, t.hour() as u64, 2, '0');
        push_char(&mut out, ':');
        push_padded_decimal(&mut out, t.minute() as u64, 2, '0');
        push_char(&mut out, ':');
        push_padded_decimal(&mut out, t.second() as u64, 2, '0');
        let ghost stamp = out@;
        assert(stamp =~= year_text(t@.year) + seq!['-'] + zero_padded(t@.month as nat, 2) + seq![
            '-',
        ] + zero_padded(t@.day as nat, 2) + seq!['T'] + zero_padded(t@.hour as nat, 2) + seq![':']
            + zero_padded(t@.minute as nat, 2) + seq![':'] + zero_padded(t@.second as nat, 2));
        let offset = self.offset_seconds as i64;
        let distance: i64 = if offset < 0 {
            -offset
        } else {
            offset
        };
        let minutes: u64 = ((distance + 30) / 60) as u64;
        push_char(
            &mut out,
            if offset < 0 {
                '-'
            } else {
                '+'
            },
        );
        push_padded_decimal(&mut out, minutes / 60, 2, '0');
        push_char(&mut out, ':');
        push_padded_decimal(&mut out, minutes % 60, 2, '0');
        assert(out@ =~= stamp + offset_text(self.offset_seconds as int));
        out
    }
}

/// Writes `t` in compact form.
///
/// Trusted: chrono's `NaiveDate::from_ymd_opt` and `NaiveDate::and_hms_opt`
/// accept every valid value, and `NaiveDateTime::format` with the pattern
/// `%Y%m%d %H%M%S` writes the year as [`year_text`] says and the other five
/// fields in two digits each.
#[verifier::external_body]
pub(crate) fn format_compact(t: &DateTime) -> (out: String)
    requires
        t@.is_valid(),
    ensures
        out@ == compact_text(t@),
{
    chrono::NaiveDate::from_ymd_opt(t.year, t.month, t.day)
        .unwrap()
        .and_hms_opt(t.hour, t.minute, t.second)
        .unwrap()
        .format("%Y%m%d %H%M%S")
        .to_string()
}

/// Reads a text of the form `year-month-day hour:minute`.
///
/// Trusted: the result is what chrono's `NaiveDateTime::parse_from_str`
/// makes of the text under the pattern `%Y-%m-%d %H:%M`, which depends on
/// the text alone; an error is handed on as its message.
#[verifier::external_body]
pub(crate) fn parse_minute_stamp(text: &str) -> (r: Result<
    (i32, u32, u32, u32, u32, u32),
    String,
>)
    ensures
        with_error_text(r) == read_minute_stamp(text@),
{
    match chrono::NaiveDateTime::parse_from_str(text, "%Y-%m-%d %H:%M") {
        Ok(t) => Ok((t.year(), t.month(), t.day(), t.hour(), t.minute(), t.second())),
        Err(e) => Err(e.to_string()),
    }
}

/// Reads a text of the form `hour:minute`.
///
/// Trusted: the result is what chrono's `NaiveTime::parse_from_str` makes
/// of the text under the pattern `%H:%M`, which depends on the text alone;
/// an error is handed on as its message.
#[verifier::external_body]
pub(crate) fn parse_clock(text: &str) -> (r: Result<(u32, u32, u32), String>)
    ensures
        with_error_text(r) == read_clock(text@),
{
    match chrono::NaiveTime::parse_from_str(text, "%H:%M") {
        Ok(t) => Ok((t.hour(), t.minute(), t.second())),
        Err(e) => Err(e.to_string()),
    }
}

/// Converts a moment given in universal time to the clocks of Berlin.
///
/// Trusted: the result is what chrono-tz's `Europe::Berlin` gives through
/// `TimeZone::from_utc_datetime` for that moment, read off with
/// `NaiveDateTime::checked_add_offset`; it depends on the moment alone, the
/// zone's rules being part of the crate.
#[verifier::external_body]
pub(crate) fn berlin_clock(utc: &DateTime) -> (r: Option<(i32, u32, u32, u32, u32, u32, i32)>)
    requires
        utc@.is_valid(),
    ensures
        r == berlin_clock_at(utc@),
{
    let naive = chrono::NaiveDate::from_ymd_opt(utc.year, utc.month, utc.day)
        .unwrap()
        .and_hms_opt(utc.hour, utc.minute, utc.second)
        .unwrap();
    let offset = chrono_tz::Europe::Berlin.from_utc_datetime(&naive).offset().fix();
    let t = naive.checked_add_offset(offset)?;
    Some((t.year(), t.month(), t.day(), t.hour(), t.minute(), t.second(), offset.local_minus_utc()))
}

} // verus!
