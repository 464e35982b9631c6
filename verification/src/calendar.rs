//! Dates and times of day: reading them, writing them, counting days, minutes and hours.

use crate::text;
use crate::text::{concat3, is_blank, two_digit_text};
use chrono::{Datelike, Days, NaiveDate, NaiveDateTime, NaiveTime, Timelike};
use vstd::prelude::*;

verus! {

/// The first minute of the day at which a booking may start or end (08:00).
pub const WORKDAY_START_MINUTES: i32 = 480;

/// The last minute of the day at which a booking may start or end (19:00).
pub const WORKDAY_END_MINUTES: i32 = 1140;

/// A day of the proleptic Gregorian calendar.
#[derive(Clone, Copy, Debug, PartialEq, Eq, Structural)]
pub struct Date {
    pub year: i32,
    pub month: u32,
    pub day: u32,
}

/// A minute of the day.
#[derive(Clone, Copy, Debug, PartialEq, Eq, Structural)]
pub struct Time {
    pub hour: u32,
    pub minute: u32,
}

/// Whether `year` has a 29th of February.
pub open spec fn leap(year: int) -> bool {
    year % 4 == 0 && (year % 100 != 0 || year % 400 == 0)
}

/// The number of days of a month.
pub open spec fn days_in_month(year: int, month: int) -> int {
    if month == 2 {
        if leap(year) { 29 } else { 28 }
    } else if month == 4 || month == 6 || month == 9 || month == 11 {
        30
    } else {
        31
    }
}

/// The number of days of `year` before the first of `month`.
pub open spec fn days_before_month(year: int, month: int) -> int
    decreases month,
{
    if month <= 1 {
        0
    } else {
        days_before_month(year, month - 1) + days_in_month(year, month - 1)
    }
}

/// The number of days from the first of January of year 1 to the first of January of `year`.
pub open spec fn days_before_year(year: int) -> int {
    365 * (year - 1) + (year - 1) / 4 - (year - 1) / 100 + (year - 1) / 400
}

/// The number of the first day that a `Date` can stand for, the first of January of -262143.
pub open spec fn first_day() -> int {
    days_before_year(-262143) + 1
}

/// The number of the last day that a `Date` can stand for, the 31st of December of 262142.
pub open spec fn last_day() -> int {
    days_before_year(262143)
}

impl Date {
    /// Whether the date exists and lies in the years that can be represented.
    pub open spec fn valid(self) -> bool {
        &&& -262143 <= self.year <= 262142
        &&& 1 <= self.month <= 12
        &&& 1 <= self.day <= days_in_month(self.year as int, self.month as int)
    }

    /// The number of the day, where the first of January of year 1 has the number 1.
    pub open spec fn number(self) -> int {
        days_before_year(self.year as int) + days_before_month(
            self.year as int,
            self.month as int,
        ) + self.day
    }
}

impl Time {
    /// Whether the time exists.
    pub open spec fn valid(self) -> bool {
        self.hour < 24 && self.minute < 60
    }

    /// Minutes since midnight.
    pub open spec fn minutes(self) -> int {
        self.hour * 60 + self.minute
    }
}

impl DeepView for Date {
    type V = Date;

    open spec fn deep_view(&self) -> Date {
        *self
    }
}

impl DeepView for Time {
    type V = Time;

    open spec fn deep_view(&self) -> Time {
        *self
    }
}

/// The date with a given day number.
pub open spec fn date_at(number: int) -> Date {
    choose|date: Date| date.valid() && #[trigger] date.number() == number
}

/// How dates are written: day, month and year.
pub open spec fn date_format() -> Seq<char> {
    "%d/%m/%Y"@
}

/// How times are written: hour and minute.
pub open spec fn time_format() -> Seq<char> {
    "%H:%M"@
}

/// A year in four digits, with a sign where four digits do not hold it.
pub open spec fn year_text(year: int) -> Seq<char> {
    if year > 9999 {
        seq!['+'] + text::decimal(year as nat)
    } else if year < 0 {
        seq!['-'] + text::padded((-year) as nat, 4)
    } else {
        text::padded(year as nat, 4)
    }
}

/// A date as `DD/MM/YYYY`.
pub open spec fn date_text(date: Date) -> Seq<char> {
    text::padded(date.day as nat, 2) + seq!['/'] + text::padded(
        date.month as nat,
        2,
    ) + seq!['/'] + year_text(date.year as int)
}

/// A time as `HH:MM`.
pub open spec fn time_text(time: Time) -> Seq<char> {
    text::padded(time.hour as nat, 2) + seq![':'] + text::padded(
        time.minute as nat,
        2,
    )
}

/// A number of at most `width` digits, with white space in front of it or none.
pub open spec fn number_in(part: Seq<char>, width: nat) -> Option<int> {
    let digits = text::trimmed_front(part);
    if 1 <= digits.len() <= width && text::all_digits(digits) {
        Some(text::digits_value(digits))
    } else {
        None
    }
}

/// A year: a number of at most four digits, or one of any length with a sign.
pub open spec fn year_in(part: Seq<char>) -> Option<int> {
    let signed = text::trimmed_front(part);
    if signed.len() > 1 && (signed[0] == '-' || signed[0] == '+') && text::all_digits(
        signed.drop_first(),
    ) {
        let number = text::digits_value(signed.drop_first());
        Some(if signed[0] == '-' { -number } else { number })
    } else {
        number_in(part, 4)
    }
}

/// A date, if it exists.
pub open spec fn date_of(year: int, month: int, day: int) -> Option<Date> {
    if -262143 <= year <= 262142 && 1 <= month <= 12 && 1 <= day <= days_in_month(year, month) {
        Some(Date { year: year as i32, month: month as u32, day: day as u32 })
    } else {
        None
    }
}

/// The date that a text spells: day, month and year with slashes between them.
pub open spec fn parsed_date(text: Seq<char>) -> Option<Date> {
    match text::cut(text, '/') {
        Some((day, rest)) => match text::cut(rest, '/') {
            Some((month, year)) => match (number_in(day, 2), number_in(month, 2), year_in(year)) {
                (Some(d), Some(m), Some(y)) => date_of(y, m, d),
                _ => None,
            },
            None => None,
        },
        None => None,
    }
}

/// The time that a text spells: hour and minute with a colon between them.
pub open spec fn parsed_time(text: Seq<char>) -> Option<Time> {
    match text::cut(text, ':') {
        Some((hour, minute)) => match (number_in(hour, 2), number_in(minute, 2)) {
            (Some(h), Some(m)) => if h < 24 && m < 60 {
                Some(Time { hour: h as u32, minute: m as u32 })
            } else {
                None
            },
            _ => None,
        },
        None => None,
    }
}

/// `NaiveDate::parse_from_str` with the format `%d/%m/%Y` reads one or two digits, a slash, one or
/// two digits, a slash and a year, each number with white space in front of it or none, and
/// nothing else. It fails where the text is not so spelled or the date does not exist.
#[verifier::external_body]
fn date_from_text(text: &str, format: &str) -> (r: Option<Date>)
    requires
        format@ == date_format(),
    ensures
        r == parsed_date(text@),
{
    NaiveDate::parse_from_str(text, format).ok().map(
        |d| Date { year: d.year(), month: d.month(), day: d.day() },
    )
}

/// `NaiveTime::parse_from_str` with the format `%H:%M` reads one or two digits, a colon and one or
/// two digits, each number with white space in front of it or none, and nothing else. It fails
/// where the text is not so spelled or the time does not exist.
#[verifier::external_body]
fn time_from_text(text: &str, format: &str) -> (r: Option<Time>)
    requires
        format@ == time_format(),
    ensures
        r == parsed_time(text@),
{
    NaiveTime::parse_from_str(text, format).ok().map(
        |t| Time { hour: t.hour(), minute: t.minute() },
    )
}

/// `NaiveDate::format` with the format `%d/%m/%Y` writes two digits for day and month and at
/// least four for the year.
#[verifier::external_body]
fn date_to_text(date: Date, format: &str) -> (r: String)
    requires
        date.valid(),
        format@ == date_format(),
    ensures
        r@ == date_text(date),
{
    NaiveDate::from_ymd_opt(date.year, date.month, date.day).unwrap().format(format).to_string()
}

/// `NaiveTime::format` with the format `%H:%M` writes two digits for the hour and two for the
/// minute.
#[verifier::external_body]
fn time_to_text(time: Time, format: &str) -> (r: String)
    requires
        time.valid(),
        format@ == time_format(),
    ensures
        r@ == time_text(time),
{
    NaiveTime::from_hms_opt(time.hour, time.minute, 0).unwrap().format(format).to_string()
}

/// `NaiveDate::checked_add_days` gives the date that many days later, or nothing where that is
/// past the last date it can hold.
#[verifier::external_body]
fn add_days(date: Date, days: u64) -> (r: Option<Date>)
    requires
        date.valid(),
    ensures
        match r {
            Some(later) => later.valid() && later.number() == date.number() + days,
            None => date.number() + days > last_day(),
        },
{
    NaiveDate::from_ymd_opt(date.year, date.month, date.day).unwrap().checked_add_days(
        Days::new(days),
    ).map(|d| Date { year: d.year(), month: d.month(), day: d.day() })
}

/// `NaiveDate::checked_sub_days` gives the date that many days earlier, or nothing where that is
/// before the first date it can hold.
#[verifier::external_body]
fn sub_days(date: Date, days: u64) -> (r: Option<Date>)
    requires
        date.valid(),
    ensures
        match r {
            Some(earlier) => earlier.valid() && earlier.number() == date.number() - days,
            None => date.number() - days < first_day(),
        },
{
    NaiveDate::from_ymd_opt(date.year, date.month, date.day).unwrap().checked_sub_days(
        Days::new(days),
    ).map(|d| Date { year: d.year(), month: d.month(), day: d.day() })
}

/// `NaiveDate::weekday` with `Weekday::num_days_from_monday`: day number 1 is a Monday, and the
/// days of the week take turns.
#[verifier::external_body]
fn weekday_from_monday(date: Date) -> (r: u32)
    requires
        date.valid(),
    ensures
        r == weekday(date),
{
    NaiveDate::from_ymd_opt(date.year, date.month, date.day).unwrap().weekday()
        .num_days_from_monday()
}

/// The difference of two `NaiveDateTime`, taken in minutes by `TimeDelta::num_minutes`: a day has
/// 1440 of them.
#[verifier::external_body]
fn minutes_between(start_date: Date, start_time: Time, end_date: Date, end_time: Time) -> (r: i64)
    requires
        start_date.valid(),
        start_time.valid(),
        end_date.valid(),
        end_time.valid(),
    ensures
        r == elapsed_minutes(start_date, start_time, end_date, end_time),
{
    let start = NaiveDateTime::new(
        NaiveDate::from_ymd_opt(start_date.year, start_date.month, start_date.day).unwrap(),
        NaiveTime::from_hms_opt(start_time.hour, start_time.minute, 0).unwrap(),
    );
    let end = NaiveDateTime::new(
        NaiveDate::from_ymd_opt(end_date.year, end_date.month, end_date.day).unwrap(),
        NaiveTime::from_hms_opt(end_time.hour, end_time.minute, 0).unwrap(),
    );
    (end - start).num_minutes()
}

/// The day of the week, counted from 0 for Monday.
pub open spec fn weekday(date: Date) -> int {
    (date.number() + 6) % 7
}

/// The minutes from one moment to another; below zero where the second comes first.
pub open spec fn elapsed_minutes(
    start_date: Date,
    start_time: Time,
    end_date: Date,
    end_time: Time,
) -> int {
    (end_date.number() - start_date.number()) * 1440 + end_time.minutes() - start_time.minutes()
}

/// The message for a date that cannot be read.
pub open spec fn invalid_date(value: Seq<char>) -> Seq<char> {
    "invalid date '"@ + text::trimmed(value) + "', expected DD/MM/YYYY"@
}

/// The message for a time that cannot be read.
pub open spec fn invalid_time(value: Seq<char>) -> Seq<char> {
    "invalid time '"@ + text::trimmed(value) + "', expected HH:MM"@
}

/// Reading a date: the white space around it does not count.
pub open spec fn read_date(value: Seq<char>) -> Result<Date, Seq<char>> {
    match parsed_date(text::trimmed(value)) {
        Some(date) => Ok(date),
        None => Err(invalid_date(value)),
    }
}

/// Reading a time: the white space around it does not count.
pub open spec fn read_time(value: Seq<char>) -> Result<Time, Seq<char>> {
    match parsed_time(text::trimmed(value)) {
        Some(time) => Ok(time),
        None => Err(invalid_time(value)),
    }
}

/// Reads a date in the form `DD/MM/YYYY`.
pub fn parse_date(value: &str) -> (r: Result<Date, String>)
    ensures
        text::outcome(r) == read_date(value@),
        r matches Ok(date) ==> date.valid(),
{
    proof {
        law_parsed_exists(text::trimmed(value@));
    }
    match date_from_text(value.trim(), "%d/%m/%Y") {
        Some(date) => Ok(date),
        None => Err(concat3("invalid date '", value.trim(), "', expected DD/MM/YYYY")),
    }
}

/// Reads a time in the form `HH:MM`.
pub fn parse_time(value: &str) -> (r: Result<Time, String>)
    ensures
        text::outcome(r) == read_time(value@),
        r matches Ok(time) ==> time.valid(),
{
    proof {
        law_parsed_exists(text::trimmed(value@));
    }
    match time_from_text(value.trim(), "%H:%M") {
        Some(time) => Ok(time),
        None => Err(concat3("invalid time '", value.trim(), "', expected HH:MM")),
    }
}

/// Reads a date from an input field; a text that is none gives nothing.
pub fn parse_ui_date(date: &str) -> (r: Option<Date>)
    ensures
        r == parsed_date(text::trimmed(date@)),
        r matches Some(found) ==> found.valid(),
{
    proof {
        law_parsed_exists(text::trimmed(date@));
    }
    date_from_text(date.trim(), "%d/%m/%Y")
}

/// Writes a date into an input field.
pub fn set_ui_date(target: &mut String, date: Date)
    requires
        date.valid(),
    ensures
        final(target)@ == date_text(date),
{
    *target = date_to_text(date, "%d/%m/%Y");
}

/// Writes a date as `DD/MM/YYYY`.
pub fn write_date(date: Date) -> (r: String)
    requires
        date.valid(),
    ensures
        r@ == date_text(date),
{
    date_to_text(date, "%d/%m/%Y")
}

/// Writes a time as `HH:MM`.
pub fn write_time(time: Time) -> (r: String)
    requires
        time.valid(),
    ensures
        r@ == time_text(time),
{
    time_to_text(time, "%H:%M")
}

/// Reads a time from an input field; a text that is none gives nothing.
pub fn parse_ui_time(time: &str) -> (r: Option<Time>)
    ensures
        r == parsed_time(text::trimmed(time@)),
        r matches Some(found) ==> found.valid(),
{
    proof {
        law_parsed_exists(text::trimmed(time@));
    }
    time_from_text(time.trim(), "%H:%M")
}

/// Minutes since midnight.
pub fn minutes_from_time(time: Time) -> (r: i32)
    requires
        time.valid(),
    ensures
        r == time.minutes(),
        0 <= r < 1440,
{
    (time.hour as i32) * 60 + (time.minute as i32)
}

/// Whether a time lies in the hours in which bookings are made.
pub open spec fn within_workday(time: Time) -> bool {
    WORKDAY_START_MINUTES <= time.minutes() <= WORKDAY_END_MINUTES
}

/// Whether a time lies in the hours in which bookings are made, both ends counted in.
pub fn is_within_workday(time: Time) -> (r: bool)
    requires
        time.valid(),
    ensures
        r == within_workday(time),
{
    let minutes = minutes_from_time(time);
    WORKDAY_START_MINUTES <= minutes && minutes <= WORKDAY_END_MINUTES
}

/// The minute of the working hours that is closest to `minutes`.
pub open spec fn clamped(minutes: int) -> int {
    if minutes < WORKDAY_START_MINUTES {
        WORKDAY_START_MINUTES as int
    } else if minutes > WORKDAY_END_MINUTES {
        WORKDAY_END_MINUTES as int
    } else {
        minutes
    }
}

/// The minute of the working hours that is closest to `minutes`.
pub fn clamp_minutes(minutes: i32) -> (r: i32)
    ensures
        r == clamped(minutes as int),
{
    if minutes < WORKDAY_START_MINUTES {
        WORKDAY_START_MINUTES
    } else if minutes > WORKDAY_END_MINUTES {
        WORKDAY_END_MINUTES
    } else {
        minutes
    }
}

/// The minute that a field shows: the one it holds, else the default, else the start of work,
/// and in any case one of the working hours.
pub open spec fn shown_minutes(value: Option<Time>, default: Option<Time>) -> int {
    clamped(
        match value {
            Some(time) => time.minutes(),
            None => match default {
                Some(time) => time.minutes(),
                None => WORKDAY_START_MINUTES as int,
            },
        },
    )
}

/// The minute that a field shows, from the times that were read from it and from its default.
pub fn minutes_or_default(value: Option<Time>, default: Option<Time>) -> (r: i32)
    requires
        value matches Some(time) ==> time.valid(),
        default matches Some(time) ==> time.valid(),
    ensures
        r == shown_minutes(value, default),
{
    let minutes: i32 = match value {
        Some(time) => minutes_from_time(time),
        None => match default {
            Some(time) => minutes_from_time(time),
            None => WORKDAY_START_MINUTES,
        },
    };
    clamp_minutes(minutes)
}

/// The minute that a field shows: the one it holds, else the default, else the start of work,
/// and in any case one of the working hours.
pub fn parse_minutes_from_midnight(value: &str, default: &str) -> (r: i32)
    ensures
        r == shown_minutes(
            parsed_time(text::trimmed(value@)),
            parsed_time(text::trimmed(default@)),
        ),
{
    minutes_or_default(parse_ui_time(value), parse_ui_time(default))
}

/// The time of day with a given number of minutes since midnight.
pub open spec fn time_of(minutes: int) -> Time {
    Time { hour: (minutes / 60) as u32, minute: (minutes % 60) as u32 }
}

/// A minute of the day as `HH:MM`, moved into the working hours first.
pub fn format_minutes_from_midnight(minutes: i32) -> (r: String)
    ensures
        r@ == time_text(time_of(clamped(minutes as int))),
{
    let clamped_minutes = clamp_minutes(minutes);
    let hour = two_digit_text((clamped_minutes / 60) as u64);
    let minute = two_digit_text((clamped_minutes % 60) as u64);
    let r = concat3(hour.as_str(), ":", minute.as_str());
    proof {
        reveal_strlit(":");
        assert(":"@ =~= seq![':']);
    }
    r
}

/// The half hour of the working hours that is closest to `minutes`, upwards from the middle.
pub fn round_to_half_hour_minutes(minutes: i32) -> (r: i32)
    requires
        minutes <= i32::MAX - 15,
    ensures
        r == clamped(((minutes + 15) / 30) * 30),
        r % 30 == 0,
        480 <= minutes <= 1140 ==> -15 <= minutes - r < 15,
{
    clamp_minutes(((minutes + 15) / 30) * 30)
}

/// The time choices on offer: every half hour of the working hours.
pub fn time_presets() -> (r: Vec<i32>)
    ensures
        r@.len() == 23,
        forall|i: int| 0 <= i < r@.len() ==> #[trigger] r@[i] == WORKDAY_START_MINUTES + 30 * i,
        r@.last() == WORKDAY_END_MINUTES,
{
    let mut r: Vec<i32> = Vec::new();
    let mut minutes: i32 = WORKDAY_START_MINUTES;
    while minutes <= WORKDAY_END_MINUTES
        invariant
            r@.len() <= 23,
            minutes == WORKDAY_START_MINUTES + 30 * r@.len(),
            forall|i: int|
                0 <= i < r@.len() ==> #[trigger] r@[i] == WORKDAY_START_MINUTES + 30 * i,
        decreases WORKDAY_END_MINUTES + 30 - minutes,
    {
        r.push(minutes);
        minutes = minutes + 30;
    }
    r
}

/// One minute later, but not after the working hours.
pub fn later_minute(minutes: i32) -> (r: i32)
    requires
        minutes < i32::MAX,
    ensures
        r == clamped(minutes + 1),
{
    clamp_minutes(minutes + 1)
}

/// One minute earlier, but not before the working hours.
pub fn earlier_minute(minutes: i32) -> (r: i32)
    requires
        minutes > i32::MIN,
    ensures
        r == clamped(minutes - 1),
{
    clamp_minutes(minutes - 1)
}

/// What a date field holds after a date was picked: the picked date where it is another one or
/// the field was blank, else the text as it was.
pub fn pick_date(value: &mut String, shown: Date, picked: Date)
    requires
        picked.valid(),
    ensures
        final(value)@ == if picked != shown || text::blank(old(value)@) {
            date_text(picked)
        } else {
            old(value)@
        },
{
    if picked != shown || is_blank(value.as_str()) {
        set_ui_date(value, picked);
    }
}

/// The message for an interval of time that ends before it starts.
pub open spec fn end_before_start() -> Seq<char> {
    "La data/ora di fine deve essere successiva a quella di inizio"@
}

/// The length of an interval in hours and minutes, which takes at least two digits for each.
pub open spec fn duration_text(minutes: int) -> Seq<char> {
    text::padded((minutes / 60) as nat, 2) + seq![':'] + text::padded(
        (minutes % 60) as nat,
        2,
    )
}

/// The length of an interval, or the message that it ends before it starts.
pub open spec fn hours_of(
    start_date: Date,
    end_date: Date,
    start_time: Time,
    end_time: Time,
) -> Result<Seq<char>, Seq<char>> {
    let minutes = elapsed_minutes(start_date, start_time, end_date, end_time);
    if minutes < 0 {
        Err(end_before_start())
    } else {
        Ok(duration_text(minutes))
    }
}

/// The length of an interval in hours and minutes.
pub fn hours_between(
    start_date: Date,
    end_date: Date,
    start_time: Time,
    end_time: Time,
) -> (r: Result<String, String>)
    requires
        start_date.valid(),
        end_date.valid(),
        start_time.valid(),
        end_time.valid(),
    ensures
        text::outcome(r) == hours_of(start_date, end_date, start_time, end_time),
{
    let minutes = minutes_between(start_date, start_time, end_date, end_time);
    if minutes < 0 {
        return Err("La data/ora di fine deve essere successiva a quella di inizio".to_owned());
    }
    let hours = two_digit_text((minutes / 60) as u64);
    let remaining_minutes = two_digit_text((minutes % 60) as u64);
    proof {
        reveal_strlit(":");
        assert(":"@ =~= seq![':']);
    }
    Ok(concat3(hours.as_str(), ":", remaining_minutes.as_str()))
}

/// The length of an interval given in text; a blank end date stands for the start date. The
/// first text that cannot be read is reported: start date, end date, start time, end time.
pub open spec fn total_hours(
    start_date: Seq<char>,
    end_date: Seq<char>,
    start_time: Seq<char>,
    end_time: Seq<char>,
) -> Result<Seq<char>, Seq<char>> {
    match read_date(start_date) {
        Err(message) => Err(message),
        Ok(from) => match (if text::blank(end_date) {
            Ok(from)
        } else {
            read_date(end_date)
        }) {
            Err(message) => Err(message),
            Ok(to) => match read_time(start_time) {
                Err(message) => Err(message),
                Ok(first) => match read_time(end_time) {
                    Err(message) => Err(message),
                    Ok(last) => hours_of(from, to, first, last),
                },
            },
        },
    }
}

/// The length of an interval given in text.
pub fn compute_total_hours(
    start_date: &str,
    end_date: &str,
    start_time: &str,
    end_time: &str,
) -> (r: Result<String, String>)
    ensures
        text::outcome(r) == total_hours(start_date@, end_date@, start_time@, end_time@),
{
    proof {
        text::lemma_trimmed_twice(end_date@);
    }
    let from = match parse_date(start_date) {
        Ok(date) => date,
        Err(message) => return Err(message),
    };
    proof {
        law_date_read_back(from);
    }
    let normalized_end_date = if is_blank(end_date) {
        write_date(from)
    } else {
        end_date.trim().to_owned()
    };
    let to = match parse_date(normalized_end_date.as_str()) {
        Ok(date) => date,
        Err(message) => return Err(message),
    };
    let first = match parse_time(start_time) {
        Ok(time) => time,
        Err(message) => return Err(message),
    };
    let last = match parse_time(end_time) {
        Ok(time) => time,
        Err(message) => return Err(message),
    };
    hours_between(from, to, first, last)
}

/// The message for a period that ends before it starts.
pub open spec fn period_reversed() -> Seq<char> {
    "La data finale deve essere uguale o successiva a quella iniziale"@
}

/// The message for a period that reaches the last date there is.
pub open spec fn period_too_late() -> Seq<char> {
    "failed to iterate booking dates"@
}

/// The dates of a period in text, each day once and in order, both ends counted in.
pub open spec fn period_texts(start: Date, end: Date) -> Seq<Seq<char>> {
    Seq::new(
        (end.number() - start.number() + 1) as nat,
        |k: int| date_text(date_at(start.number() + k)),
    )
}

/// The dates of a period in text, or the message why there are none.
pub open spec fn period_of(start: Date, end: Date) -> Result<Seq<Seq<char>>, Seq<char>> {
    if end.number() < start.number() {
        Err(period_reversed())
    } else if end.number() == last_day() {
        Err(period_too_late())
    } else {
        Ok(period_texts(start, end))
    }
}

/// Whether one date comes before another.
pub fn is_earlier(a: Date, b: Date) -> (r: bool)
    requires
        a.valid(),
        b.valid(),
    ensures
        r == (a.number() < b.number()),
{
    proof {
        lemma_number_order(a, b);
        lemma_number_order(b, a);
    }
    a.year < b.year || (a.year == b.year && (a.month < b.month || (a.month == b.month && a.day
        < b.day)))
}

/// The dates of a period in text, each day once and in order, both ends counted in.
pub fn dates_between(start: Date, end: Date) -> (r: Result<Vec<String>, String>)
    requires
        start.valid(),
        end.valid(),
    ensures
        text::outcome(r) == period_of(start, end),
{
    if is_earlier(end, start) {
        return Err("La data finale deve essere uguale o successiva a quella iniziale".to_owned());
    }
    let mut dates: Vec<String> = Vec::new();
    let mut current = start;
    proof {
        lemma_number_bounds(start);
        lemma_number_bounds(end);
    }
    while !is_earlier(end, current)
        invariant
            start.valid(),
            end.valid(),
            current.valid(),
            end.number() <= last_day(),
            current.number() == start.number() + dates@.len(),
            current.number() <= end.number() + 1,
            current.number() <= last_day(),
            dates.deep_view() == Seq::new(
                dates@.len(),
                |k: int| date_text(date_at(start.number() + k)),
            ),
        decreases end.number() + 1 - current.number(),
    {
        let ghost before = dates.deep_view();
        dates.push(write_date(current));
        proof {
            lemma_date_at(current);
            assert(dates.deep_view() =~= before.push(date_text(current)));
            assert(dates.deep_view() =~= Seq::new(
                dates@.len(),
                |k: int| date_text(date_at(start.number() + k)),
            ));
        }
        current = match add_days(current, 1) {
            Some(next) => next,
            None => return Err("failed to iterate booking dates".to_owned()),
        };
        proof {
            lemma_number_bounds(current);
        }
    }
    Ok(dates)
}

/// The dates of a period that is given in text.
pub open spec fn listed_dates(from: Seq<char>, to: Seq<char>) -> Result<Seq<Seq<char>>, Seq<char>> {
    match read_date(from) {
        Err(message) => Err(message),
        Ok(start) => match read_date(to) {
            Err(message) => Err(message),
            Ok(end) => period_of(start, end),
        },
    }
}

/// The dates of a period that is given in text, each day once and in order, both ends counted
/// in.
pub fn list_dates_inclusive(from: &str, to: &str) -> (r: Result<Vec<String>, String>)
    ensures
        text::outcome(r) == listed_dates(from@, to@),
{
    let start = match parse_date(from) {
        Ok(date) => date,
        Err(message) => return Err(message),
    };
    let end = match parse_date(to) {
        Ok(date) => date,
        Err(message) => return Err(message),
    };
    dates_between(start, end)
}

/// The Italian name of a day of the week, counted from 0 for Monday.
pub open spec fn weekday_name(n: int) -> Seq<char> {
    if n == 0 {
        "Lunedi'"@
    } else if n == 1 {
        "Martedi'"@
    } else if n == 2 {
        "Mercoledi'"@
    } else if n == 3 {
        "Giovedi'"@
    } else if n == 4 {
        "Venerdi'"@
    } else if n == 5 {
        "Sabato"@
    } else {
        "Domenica"@
    }
}

/// A date with the name of its day of the week in front; a text that is no date stays as it is.
pub open spec fn labelled(date: Seq<char>, parsed: Option<Date>) -> Seq<char> {
    match parsed {
        Some(found) => weekday_name(weekday(found)) + " "@ + date,
        None => date,
    }
}

/// The label of a day, from its text and the date that was read from it.
pub fn label_day(date: &str, parsed: Option<Date>) -> (r: String)
    requires
        parsed matches Some(found) ==> found.valid(),
    ensures
        r@ == labelled(date@, parsed),
{
    match parsed {
        Some(found) => {
            let name = match weekday_from_monday(found) {
                0 => "Lunedi'",
                1 => "Martedi'",
                2 => "Mercoledi'",
                3 => "Giovedi'",
                4 => "Venerdi'",
                5 => "Sabato",
                _ => "Domenica",
            };
            concat3(name, " ", date)
        },
        None => date.to_owned(),
    }
}

/// The label of a day. The text is read as it stands, white space included.
pub open spec fn day_label(date: Seq<char>) -> Seq<char> {
    labelled(date, parsed_date(date))
}

/// The label of a day.
pub fn format_day_label(date: &str) -> (r: String)
    ensures
        r@ == day_label(date@),
{
    proof {
        law_parsed_exists(date@);
    }
    label_day(date, date_from_text(date, "%d/%m/%Y"))
}

/// The Monday and the Friday of the week of a day, unless one of them cannot be represented.
pub open spec fn work_week(today: Date) -> Option<(Seq<char>, Seq<char>)> {
    let monday = today.number() - weekday(today);
    if monday < first_day() || monday + 4 > last_day() {
        None
    } else {
        Some((date_text(date_at(monday)), date_text(date_at(monday + 4))))
    }
}

/// The Monday and the Friday of the week of a day, unless one of them cannot be represented.
pub fn current_week(today: Date) -> (r: Option<(String, String)>)
    requires
        today.valid(),
    ensures
        r.deep_view() == work_week(today),
{
    let since_monday = weekday_from_monday(today) as u64;
    match sub_days(today, since_monday) {
        Some(monday) => {
            proof {
                lemma_number_bounds(monday);
                lemma_date_at(monday);
            }
            match add_days(monday, 4) {
                Some(friday) => {
                    proof {
                        lemma_number_bounds(friday);
                        lemma_date_at(friday);
                    }
                    Some((write_date(monday), write_date(friday)))
                },
                None => None,
            }
        },
        None => None,
    }
}

proof fn lemma_days_before_month(year: int, month: int)
    requires
        1 <= month <= 12,
    ensures
        month == 1 ==> days_before_month(year, month) == 0,
        month > 1 ==> days_before_month(year, month) == days_before_month(year, month - 1)
            + days_in_month(year, month - 1),
        0 <= days_before_month(year, month),
        days_before_month(year, month) + days_in_month(year, month) <= 365 + (if leap(year) {
            1int
        } else {
            0
        }),
{
    reveal_with_fuel(days_before_month, 13);
}

proof fn lemma_later_month(year: int, a: int, b: int)
    requires
        1 <= a < b <= 12,
    ensures
        days_before_month(year, a) + days_in_month(year, a) <= days_before_month(year, b),
    decreases b - a,
{
    if a + 1 < b {
        lemma_later_month(year, a, b - 1);
    }
}

proof fn lemma_division_step(a: int, d: int)
    by (nonlinear_arith)
    requires
        d > 1,
    ensures
        a / d == (a - 1) / d + if a % d == 0 { 1int } else { 0 },
{
}

proof fn lemma_leap_divisors(a: int)
    ensures
        a % 400 == 0 ==> a % 100 == 0,
        a % 100 == 0 ==> a % 4 == 0,
{
}

proof fn lemma_next_year(a: int)
    ensures
        days_before_year(a + 1) == days_before_year(a) + 365 + (if leap(a) { 1int } else { 0 }),
{
    lemma_division_step(a, 4);
    lemma_division_step(a, 100);
    lemma_division_step(a, 400);
    lemma_leap_divisors(a);
}

proof fn lemma_later_year(a: int, b: int)
    requires
        a < b,
    ensures
        days_before_year(a) + 365 + (if leap(a) { 1int } else { 0 }) <= days_before_year(b),
        b == a + 1 ==> days_before_year(a) + 365 + (if leap(a) { 1int } else { 0 })
            == days_before_year(b),
    decreases b - a,
{
    if a + 1 < b {
        lemma_later_year(a, b - 1);
        lemma_next_year(b - 1);
    } else {
        lemma_next_year(a);
    }
}

/// The numbers of the dates that exist run from the first day to the last.
pub proof fn lemma_number_bounds(date: Date)
    requires
        date.valid(),
    ensures
        first_day() <= date.number() <= last_day(),
        days_before_year(date.year as int) < date.number() <= days_before_year(date.year + 1),
{
    lemma_days_before_month(date.year as int, date.month as int);
    lemma_later_year(date.year as int, date.year + 1);
    if date.year < 262142 {
        lemma_later_year(date.year + 1, 262143);
    }
    if date.year > -262143 {
        lemma_later_year(-262143, date.year as int);
    }
}

/// A date that comes first by year, month and day has the smaller number.
pub proof fn lemma_number_order(a: Date, b: Date)
    requires
        a.valid(),
        b.valid(),
    ensures
        a.year < b.year || (a.year == b.year && (a.month < b.month || (a.month == b.month && a.day
            < b.day))) ==> a.number() < b.number(),
{
    if a.year < b.year {
        lemma_number_bounds(a);
        lemma_number_bounds(b);
        if a.year + 1 < b.year {
            lemma_later_year(a.year + 1, b.year as int);
        }
    } else if a.year == b.year && a.month < b.month {
        lemma_later_month(a.year as int, a.month as int, b.month as int);
    }
}

/// No two dates share a number.
pub proof fn lemma_number_unique(a: Date, b: Date)
    requires
        a.valid(),
        b.valid(),
        a.number() == b.number(),
    ensures
        a == b,
{
    lemma_number_order(a, b);
    lemma_number_order(b, a);
}

/// A date is found by its number.
pub proof fn lemma_date_at(date: Date)
    requires
        date.valid(),
    ensures
        date_at(date.number()) == date,
{
    let found = date_at(date.number());
    assert(found.valid() && found.number() == date.number());
    lemma_number_unique(found, date);
}

/// A date in text has no white space at its ends.
pub proof fn lemma_date_text_trimmed(date: Date)
    ensures
        text::trimmed(date_text(date)) == date_text(date),
{
    let text = date_text(date);
    let day = text::padded(date.day as nat, 2);
    text::lemma_padded_digits(date.day as nat, 2);
    let year = year_text(date.year as int);
    text::lemma_decimal_digits(date.year as nat);
    text::lemma_padded_digits(date.year as nat, 4);
    text::lemma_padded_digits((-date.year) as nat, 4);
    text::lemma_decimal_not_empty(date.year as nat);
    assert(text[0] == day[0]);
    assert(text.last() == year.last());
    text::lemma_trimmed_kept(text);
}

/// A time in text has no white space at its ends.
pub proof fn lemma_time_text_trimmed(time: Time)
    ensures
        text::trimmed(time_text(time)) == time_text(time),
{
    let text = time_text(time);
    text::lemma_padded_digits(time.hour as nat, 2);
    text::lemma_padded_digits(time.minute as nat, 2);
    assert(text[0] == text::padded(time.hour as nat, 2)[0]);
    assert(text.last() == text::padded(time.minute as nat, 2).last());
    text::lemma_trimmed_kept(text);
}

/// A date that is written is read back, also with white space around it.
pub proof fn law_date_read_back(date: Date)
    requires
        date.valid(),
    ensures
        parsed_date(date_text(date)) == Some(date),
        text::trimmed(date_text(date)) == date_text(date),
        date_text(date).len() > 0,
        read_date(date_text(date)) == Ok::<Date, Seq<char>>(date),
        day_label(date_text(date)) == labelled(date_text(date), Some(date)),
{
    let day = text::padded(date.day as nat, 2);
    let month = text::padded(date.month as nat, 2);
    let year = year_text(date.year as int);
    let rest = month + seq!['/'] + year;
    text::lemma_padded_digits(date.day as nat, 2);
    text::lemma_padded_digits(date.month as nat, 2);
    text::lemma_padded_value(date.day as nat, 2);
    text::lemma_padded_value(date.month as nat, 2);
    text::lemma_cut(day, '/', rest);
    text::lemma_cut(month, '/', year);
    assert(date_text(date) =~= day + seq!['/'] + rest);
    text::lemma_digits_trimmed(day);
    text::lemma_digits_trimmed(month);
    lemma_year_read_back(date.year as int);
    lemma_date_text_trimmed(date);
}

proof fn lemma_year_read_back(year: int)
    ensures
        year_in(year_text(year)) == Some(year),
{
    let text = year_text(year);
    if year > 9999 {
        text::lemma_decimal_digits(year as nat);
        text::lemma_decimal_not_empty(year as nat);
        text::lemma_decimal_value(year as nat);
        assert(text.drop_first() =~= text::decimal(year as nat));
    } else if year < 0 {
        text::lemma_padded_digits((-year) as nat, 4);
        text::lemma_padded_value((-year) as nat, 4);
        assert(text.drop_first() =~= text::padded((-year) as nat, 4));
    } else {
        text::lemma_padded_digits(year as nat, 4);
        text::lemma_padded_value(year as nat, 4);
    }
    text::lemma_digits_trimmed(text);
}

/// A time that is written is read back, also with white space around it.
pub proof fn law_time_read_back(time: Time)
    requires
        time.valid(),
    ensures
        parsed_time(time_text(time)) == Some(time),
        text::trimmed(time_text(time)) == time_text(time),
        read_time(time_text(time)) == Ok::<Time, Seq<char>>(time),
{
    let hour = text::padded(time.hour as nat, 2);
    let minute = text::padded(time.minute as nat, 2);
    text::lemma_padded_digits(time.hour as nat, 2);
    text::lemma_padded_digits(time.minute as nat, 2);
    text::lemma_padded_value(time.hour as nat, 2);
    text::lemma_padded_value(time.minute as nat, 2);
    text::lemma_cut(hour, ':', minute);
    text::lemma_digits_trimmed(hour);
    text::lemma_digits_trimmed(minute);
    lemma_time_text_trimmed(time);
}

/// What is read is a date or a time that exists.
pub proof fn law_parsed_exists(text: Seq<char>)
    ensures
        parsed_date(text) matches Some(date) ==> date.valid(),
        parsed_time(text) matches Some(time) ==> time.valid(),
{
    if let Some((hour, minute)) = text::cut(text, ':') {
        lemma_number_in(hour, 2);
        lemma_number_in(minute, 2);
    }
}

proof fn lemma_number_in(part: Seq<char>, width: nat)
    ensures
        number_in(part, width) matches Some(number) ==> number >= 0,
{
    lemma_digits_value(text::trimmed_front(part));
}

proof fn lemma_digits_value(s: Seq<char>)
    ensures
        text::all_digits(s) ==> text::digits_value(s) >= 0,
    decreases s.len(),
{
    if s.len() > 0 {
        lemma_digits_value(s.drop_last());
        assert(text::all_digits(s) ==> '0' <= s[s.len() - 1] <= '9');
        assert(text::all_digits(s) ==> text::all_digits(s.drop_last()));
    }
}

/// White space in front of a number does not count, and a zero in front may be left out: whatever
/// stands for the numbers of a date is read as the date that the numbers make.
pub proof fn law_spelled_date(day: Seq<char>, month: Seq<char>, year: Seq<char>)
    requires
        number_in(day, 2) is Some,
        number_in(month, 2) is Some,
        year_in(year) is Some,
    ensures
        parsed_date(day + seq!['/'] + month + seq!['/'] + year) == date_of(
            year_in(year)->0,
            number_in(month, 2)->0,
            number_in(day, 2)->0,
        ),
{
    let rest = month + seq!['/'] + year;
    lemma_number_without(day, 2, '/');
    lemma_number_without(month, 2, '/');
    text::lemma_cut(day, '/', rest);
    text::lemma_cut(month, '/', year);
    assert(day + seq!['/'] + month + seq!['/'] + year =~= day + seq!['/'] + rest);
}

/// White space in front of a number does not count, and a zero in front may be left out: whatever
/// stands for the numbers of a time is read as the time that the numbers make.
pub proof fn law_spelled_time(hour: Seq<char>, minute: Seq<char>)
    requires
        number_in(hour, 2) is Some,
        number_in(minute, 2) is Some,
    ensures
        parsed_time(hour + seq![':'] + minute) == (if number_in(hour, 2)->0 < 24 && number_in(
            minute,
            2,
        )->0 < 60 {
            Some(
                Time {
                    hour: number_in(hour, 2)->0 as u32,
                    minute: number_in(minute, 2)->0 as u32,
                },
            )
        } else {
            None
        }),
{
    lemma_number_without(hour, 2, ':');
    text::lemma_cut(hour, ':', minute);
}

proof fn lemma_number_without(part: Seq<char>, width: nat, c: char)
    requires
        number_in(part, width) is Some,
        !('0' <= c <= '9'),
        !text::white_space(c),
    ensures
        !part.contains(c),
    decreases part.len(),
{
    if part.len() > 0 && text::white_space(part[0]) {
        let shorter = part.drop_first();
        lemma_number_without(shorter, width, c);
        assert forall|i: int| 0 <= i < part.len() implies part[i] != c by {
            if i > 0 {
                assert(shorter.contains(shorter[i - 1]));
            }
        }
    } else {
        assert(text::trimmed_front(part) == part);
    }
}

/// A text without a digit is no date and no time.
pub proof fn law_no_digits(text: Seq<char>)
    requires
        forall|i: int| 0 <= i < text.len() ==> !('0' <= #[trigger] text[i] <= '9'),
    ensures
        parsed_date(text) is None,
        parsed_time(text) is None,
{
    lemma_cut_parts(text, '/');
    lemma_cut_parts(text, ':');
    if let Some((front, back)) = text::cut(text, '/') {
        lemma_no_number(front);
    }
    if let Some((front, back)) = text::cut(text, ':') {
        lemma_no_number(front);
    }
}

proof fn lemma_cut_parts(s: Seq<char>, c: char)
    ensures
        text::cut(s, c) matches Some((front, back)) ==> front.is_prefix_of(s),
    decreases s.len(),
{
    if s.len() > 0 && s[0] != c {
        lemma_cut_parts(s.drop_first(), c);
        if let Some((front, back)) = text::cut(s.drop_first(), c) {
            let whole = seq![s[0]] + front;
            assert forall|i: int| 0 <= i < whole.len() implies whole[i] == s[i] by {
                if i > 0 {
                    assert(front[i - 1] == s.drop_first()[i - 1]);
                }
            }
            assert(whole =~= s.subrange(0, whole.len() as int));
        }
    }
}

proof fn lemma_no_number(part: Seq<char>)
    requires
        forall|i: int| 0 <= i < part.len() ==> !('0' <= #[trigger] part[i] <= '9'),
    ensures
        number_in(part, 2) is None,
    decreases part.len(),
{
    if part.len() > 0 && text::white_space(part[0]) {
        lemma_no_number(part.drop_first());
    }
}

/// What `format_minutes_from_midnight` has written is read back.
pub proof fn law_minutes_read_back(minutes: int, default: Option<Time>)
    ensures
        shown_minutes(
            parsed_time(text::trimmed(time_text(time_of(clamped(minutes))))),
            default,
        ) == clamped(minutes),
{
    law_time_read_back(time_of(clamped(minutes)));
}

/// The hours between dates and times that are written as `write_date` and `write_time` write them
/// are counted in any case.
pub proof fn law_written_hours(from: Date, to: Date, first: Time, last: Time)
    requires
        from.valid(),
        to.valid(),
        first.valid(),
        last.valid(),
    ensures
        total_hours(date_text(from), date_text(to), time_text(first), time_text(last)) == hours_of(
            from,
            to,
            first,
            last,
        ),
{
    law_date_read_back(from);
    law_date_read_back(to);
    law_time_read_back(first);
    law_time_read_back(last);
}

/// The date that follows another.
pub open spec fn next_date(date: Date) -> Date {
    if date.day < days_in_month(date.year as int, date.month as int) {
        Date { day: (date.day + 1) as u32, ..date }
    } else if date.month < 12 {
        Date { month: (date.month + 1) as u32, day: 1, ..date }
    } else {
        Date { year: (date.year + 1) as i32, month: 1, day: 1 }
    }
}

proof fn lemma_next_date(date: Date)
    requires
        date.valid(),
        date.number() < last_day(),
    ensures
        next_date(date).valid(),
        next_date(date).number() == date.number() + 1,
{
    let year = date.year as int;
    lemma_days_before_month(year, date.month as int);
    if date.month < 12 {
        lemma_days_before_month(year, date.month + 1);
    } else {
        lemma_next_year(year);
        lemma_days_before_month(year + 1, 1);
        reveal_with_fuel(days_before_month, 13);
    }
}

/// Every day from the first to the last has a date.
pub proof fn lemma_date_exists(number: int)
    requires
        first_day() <= number <= last_day(),
    ensures
        date_at(number).valid(),
        date_at(number).number() == number,
    decreases number - first_day(),
{
    let date = if number == first_day() {
        let first = Date { year: (-262143) as i32, month: 1, day: 1 };
        assert(days_before_month(-262143, 1) == 0);
        first
    } else {
        lemma_date_exists(number - 1);
        lemma_next_date(date_at(number - 1));
        next_date(date_at(number - 1))
    };
    assert(date.valid() && date.number() == number);
}

/// A period lists every day from its start to its end, each once and in order: the first is the
/// start, the last is the end, and each is the day after the one before. The last date there is
/// cannot be the end of a period.
pub proof fn law_period(start: Date, end: Date, k: int)
    requires
        start.valid(),
        end.valid(),
        start.number() <= end.number() < last_day(),
        0 <= k <= end.number() - start.number(),
    ensures
        period_of(start, end) matches Ok(texts) && {
            &&& texts.len() == end.number() - start.number() + 1
            &&& texts[0] == date_text(start)
            &&& texts.last() == date_text(end)
            &&& texts[k] == date_text(date_at(start.number() + k))
        },
        date_at(start.number() + k).valid(),
        date_at(start.number() + k).number() == start.number() + k,
        k > 0 ==> date_at(start.number() + k) == next_date(date_at(start.number() + k - 1)),
{
    lemma_number_bounds(start);
    lemma_number_bounds(end);
    lemma_date_at(start);
    lemma_date_at(end);
    lemma_date_exists(start.number() + k);
    if k > 0 {
        let before = date_at(start.number() + k - 1);
        lemma_date_exists(start.number() + k - 1);
        lemma_next_date(before);
        lemma_number_unique(next_date(before), date_at(start.number() + k));
    }
}

/// The working days of a week run from its Monday to its Friday, and the day they were asked for
/// is in that week.
pub proof fn law_work_week(today: Date)
    requires
        today.valid(),
    ensures
        work_week(today) matches Some((monday_text, friday_text)) ==> {
            let monday = date_at(today.number() - weekday(today));
            let friday = date_at(today.number() - weekday(today) + 4);
            &&& monday.valid() && friday.valid()
            &&& weekday(monday) == 0 && weekday(friday) == 4
            &&& monday.number() <= today.number() <= monday.number() + 6
            &&& friday.number() == monday.number() + 4
            &&& monday_text == date_text(monday) && friday_text == date_text(friday)
        },
{
    let monday = today.number() - weekday(today);
    if first_day() <= monday && monday + 4 <= last_day() {
        lemma_date_exists(monday);
        lemma_date_exists(monday + 4);
    }
}

/// The hours of a booking on one day can be told exactly where it does not end before it starts,
/// and then they are those between its two times.
pub proof fn law_hours_of_one_day(date: Date, start: Time, end: Time)
    requires
        date.valid(),
        start.valid(),
        end.valid(),
    ensures
        hours_of(date, date, start, end) is Ok <==> start.minutes() <= end.minutes(),
        start.minutes() <= end.minutes() ==> hours_of(date, date, start, end) == Ok::<
            Seq<char>,
            Seq<char>,
        >(duration_text(end.minutes() - start.minutes())),
{
}

/// The length of an interval is written as hours and minutes with a colon between them, in digits,
/// with fewer than sixty minutes and two digits for them; an hour counts sixty minutes.
pub proof fn law_duration(minutes: int)
    requires
        0 <= minutes,
    ensures
        text::cut(duration_text(minutes), ':') matches Some((hours, rest)) && {
            &&& text::all_digits(hours)
            &&& text::all_digits(rest)
            &&& hours.len() >= 2
            &&& rest.len() == 2
            &&& 0 <= text::digits_value(rest) < 60
            &&& text::digits_value(hours) * 60 + text::digits_value(rest) == minutes
        },
{
    let whole = (minutes / 60) as nat;
    let part = (minutes % 60) as nat;
    text::lemma_padded_digits(whole, 2);
    text::lemma_padded_digits(part, 2);
    text::lemma_padded_value(whole, 2);
    text::lemma_padded_value(part, 2);
    text::lemma_cut(text::padded(whole, 2), ':', text::padded(part, 2));
}

/// The hours between two moments are told exactly where the second is not before the first, and
/// are the length of the interval in minutes: a day has twenty-four hours of sixty minutes.
pub proof fn law_hours_between(start_date: Date, end_date: Date, start_time: Time, end_time: Time)
    ensures
        ({
            let minutes = (end_date.number() - start_date.number()) * 24 * 60 + (end_time.hour
                - start_time.hour) * 60 + end_time.minute - start_time.minute;
            let hours = hours_of(start_date, end_date, start_time, end_time);
            &&& hours is Ok <==> minutes >= 0
            &&& minutes >= 0 ==> hours->Ok_0 == duration_text(minutes)
            &&& minutes < 0 ==> hours->Err_0
                == "La data/ora di fine deve essere successiva a quella di inizio"@
        }),
{
}

/// The hours of an interval in text are those between the dates and times that the texts spell; a
/// blank end date stands for the start date. The first text that spells none is reported, dates
/// before times and starts before ends.
pub proof fn law_total_hours(
    start_date: Seq<char>,
    end_date: Seq<char>,
    start_time: Seq<char>,
    end_time: Seq<char>,
)
    ensures
        ({
            let from = parsed_date(text::trimmed(start_date));
            let to = if text::trimmed(end_date).len() == 0 {
                from
            } else {
                parsed_date(text::trimmed(end_date))
            };
            let first = parsed_time(text::trimmed(start_time));
            let last = parsed_time(text::trimmed(end_time));
            let hours = total_hours(start_date, end_date, start_time, end_time);
            &&& from is None ==> hours == Err::<Seq<char>, Seq<char>>(
                "invalid date '"@ + text::trimmed(start_date) + "', expected DD/MM/YYYY"@,
            )
            &&& from is Some && to is None ==> hours == Err::<Seq<char>, Seq<char>>(
                "invalid date '"@ + text::trimmed(end_date) + "', expected DD/MM/YYYY"@,
            )
            &&& from is Some && to is Some && first is None ==> hours == Err::<
                Seq<char>,
                Seq<char>,
            >("invalid time '"@ + text::trimmed(start_time) + "', expected HH:MM"@)
            &&& from is Some && to is Some && first is Some && last is None ==> hours == Err::<
                Seq<char>,
                Seq<char>,
            >("invalid time '"@ + text::trimmed(end_time) + "', expected HH:MM"@)
            &&& from is Some && to is Some && first is Some && last is Some ==> hours == hours_of(
                from->0,
                to->0,
                first->0,
                last->0,
            )
        }),
{
}

/// A text is read as the date or the time that it spells without the white space around it; one
/// that spells none is reported as it is without that white space.
pub proof fn law_read(value: Seq<char>)
    ensures
        ({
            let date = parsed_date(text::trimmed(value));
            let time = parsed_time(text::trimmed(value));
            &&& date is Some ==> read_date(value) == Ok::<Date, Seq<char>>(date->0)
            &&& date is None ==> read_date(value) == Err::<Date, Seq<char>>(
                "invalid date '"@ + text::trimmed(value) + "', expected DD/MM/YYYY"@,
            )
            &&& time is Some ==> read_time(value) == Ok::<Time, Seq<char>>(time->0)
            &&& time is None ==> read_time(value) == Err::<Time, Seq<char>>(
                "invalid time '"@ + text::trimmed(value) + "', expected HH:MM"@,
            )
        }),
{
}

/// The dates of a period in text are those between the two dates that the texts spell. A period
/// that ends before it starts is refused, as is one that ends on the last day of the year 262142,
/// and a text that spells no date is reported, the start before the end.
pub proof fn law_listed_dates(from: Seq<char>, to: Seq<char>)
    ensures
        ({
            let start = parsed_date(text::trimmed(from));
            let end = parsed_date(text::trimmed(to));
            let dates = listed_dates(from, to);
            &&& start is None ==> dates == Err::<Seq<Seq<char>>, Seq<char>>(
                "invalid date '"@ + text::trimmed(from) + "', expected DD/MM/YYYY"@,
            )
            &&& start is Some && end is None ==> dates == Err::<Seq<Seq<char>>, Seq<char>>(
                "invalid date '"@ + text::trimmed(to) + "', expected DD/MM/YYYY"@,
            )
            &&& start is Some && end is Some && end->0.number() < start->0.number() ==> dates
                == Err::<Seq<Seq<char>>, Seq<char>>(
                "La data finale deve essere uguale o successiva a quella iniziale"@,
            )
            &&& start is Some && end is Some && start->0.number() <= end->0.number()
                && end->0.year == 262142 && end->0.month == 12 && end->0.day == 31 ==> dates
                == Err::<Seq<Seq<char>>, Seq<char>>("failed to iterate booking dates"@)
            &&& start is Some && end is Some && start->0.number() <= end->0.number() && !(
            end->0.year == 262142 && end->0.month == 12 && end->0.day == 31) ==> dates is Ok
                && dates->Ok_0.len() == end->0.number() - start->0.number() + 1
                && dates->Ok_0[0] == date_text(start->0) && dates->Ok_0.last() == date_text(
                end->0,
            )
        }),
{
    let last = Date { year: 262142, month: 12, day: 31 };
    law_parsed_exists(text::trimmed(from));
    law_parsed_exists(text::trimmed(to));
    assert(last.number() == last_day()) by {
        reveal_with_fuel(days_before_month, 13);
    }
    if let Some(start) = parsed_date(text::trimmed(from)) {
        if let Some(end) = parsed_date(text::trimmed(to)) {
            lemma_number_bounds(end);
            if end.number() == last_day() {
                lemma_number_unique(end, last);
            }
            if start.number() <= end.number() && end.number() < last_day() {
                law_period(start, end, 0);
            }
        }
    }
}

/// A time lies in the working hours from eight o'clock to seven in the evening, both counted in.
pub proof fn law_working_hours(time: Time)
    ensures
        within_workday(time) <==> 8 * 60 <= time.hour * 60 + time.minute <= 19 * 60,
{
}

/// A minute is moved into the working hours to the closest one there, and stays where it is if it
/// lies in them.
pub proof fn law_clamped(minutes: int, other: int)
    requires
        480 <= other <= 1140,
    ensures
        480 <= clamped(minutes) <= 1140,
        480 <= minutes <= 1140 ==> clamped(minutes) == minutes,
        minutes <= other ==> minutes <= clamped(minutes) <= other,
        minutes >= other ==> other <= clamped(minutes) <= minutes,
{
}

/// A field shows the minute that it holds, and where it holds none the one of its default, and
/// where that is none either the start of the working hours; a minute outside the working hours
/// is shown as the closest one in them.
pub proof fn law_shown_minutes(held: Time, default: Option<Time>)
    ensures
        480 <= held.hour * 60 + held.minute <= 1140 ==> shown_minutes(Some(held), default)
            == held.hour * 60 + held.minute,
        held.hour * 60 + held.minute < 480 ==> shown_minutes(Some(held), default) == 480,
        held.hour * 60 + held.minute > 1140 ==> shown_minutes(Some(held), default) == 1140,
        shown_minutes(None, Some(held)) == shown_minutes(Some(held), default),
        shown_minutes(None, None) == 480,
{
}

/// A minute of the day is a time of that many minutes, with fewer than sixty of them beside the
/// hours.
pub proof fn law_time_of(minutes: int)
    requires
        0 <= minutes < 1440,
    ensures
        time_of(minutes).hour * 60 + time_of(minutes).minute == minutes,
        time_of(minutes).minute < 60,
        time_of(minutes).hour < 24,
{
}

/// The label of a day is its text with the name of its day of the week and a blank in front, and
/// the text alone where it is no date.
pub proof fn law_day_label(date: Seq<char>)
    ensures
        parsed_date(date) is None ==> day_label(date) == date,
        parsed_date(date) matches Some(found) ==> {
            let day = (found.number() - 1) % 7;
            &&& day == 0 ==> day_label(date) == "Lunedi'"@ + " "@ + date
            &&& day == 1 ==> day_label(date) == "Martedi'"@ + " "@ + date
            &&& day == 2 ==> day_label(date) == "Mercoledi'"@ + " "@ + date
            &&& day == 3 ==> day_label(date) == "Giovedi'"@ + " "@ + date
            &&& day == 4 ==> day_label(date) == "Venerdi'"@ + " "@ + date
            &&& day == 5 ==> day_label(date) == "Sabato"@ + " "@ + date
            &&& day == 6 ==> day_label(date) == "Domenica"@ + " "@ + date
        },
{
}

/// The days of the week follow one another from day to day, Monday after Sunday; the first of
/// January of the year 1970 is a Thursday.
pub proof fn law_weekdays(date: Date)
    requires
        date.valid(),
        date.number() < last_day(),
    ensures
        next_date(date).valid(),
        0 <= weekday(date) <= 6,
        weekday(date) < 6 ==> weekday(next_date(date)) == weekday(date) + 1,
        weekday(date) == 6 ==> weekday(next_date(date)) == 0,
        weekday(Date { year: 1970, month: 1, day: 1 }) == 3,
{
    lemma_next_date(date);
    assert(days_before_month(1970, 1) == 0);
}

/// The months have their usual days: February has one more in every fourth year, but for the
/// hundredth ones that are not four hundredth ones.
pub proof fn law_days_in_month(year: int, month: int)
    requires
        1 <= month <= 12,
    ensures
        month == 4 || month == 6 || month == 9 || month == 11 <==> days_in_month(year, month) == 30,
        month == 2 && year % 400 == 0 ==> days_in_month(year, month) == 29,
        month == 2 && year % 400 != 0 && year % 100 == 0 ==> days_in_month(year, month) == 28,
        month == 2 && year % 100 != 0 && year % 4 == 0 ==> days_in_month(year, month) == 29,
        month == 2 && year % 4 != 0 ==> days_in_month(year, month) == 28,
        month != 2 && month != 4 && month != 6 && month != 9 && month != 11 ==> days_in_month(
            year,
            month,
        ) == 31,
{
    if month == 2 && year % 4 != 0 {
        assert(year % 100 != 0 || year % 4 == 0);
        assert(year % 400 != 0 || year % 4 == 0);
    }
}

/// The working days of the week of a day are those from the Monday that is at most six days before
/// it to the Friday four days after that Monday.
pub proof fn law_monday_to_friday(today: Date, monday: Date, friday: Date)
    requires
        monday.valid(),
        friday.valid(),
        weekday(monday) == 0,
        friday.number() == monday.number() + 4,
        monday.number() <= today.number() <= monday.number() + 6,
    ensures
        work_week(today) == Some((date_text(monday), date_text(friday))),
{
    lemma_number_bounds(monday);
    lemma_number_bounds(friday);
    lemma_date_at(monday);
    lemma_date_at(friday);
    lemma_monday(today.number(), monday.number());
}

proof fn lemma_monday(today: int, monday: int)
    requires
        (monday + 6) % 7 == 0,
        monday <= today <= monday + 6,
    ensures
        today - (today + 6) % 7 == monday,
{
}

/// The time that a text spells has the hour in front of the first colon and the minute behind it.
/// The date that a text spells has the day in front of the first slash, the month in front of the
/// second and the year behind it.
pub proof fn law_parts(text: Seq<char>)
    ensures
        parsed_time(text) matches Some(time) ==> text::cut(text, ':') matches Some(
            (hour, minute),
        ) && number_in(hour, 2) == Some(time.hour as int) && number_in(minute, 2) == Some(
            time.minute as int,
        ),
        parsed_date(text) matches Some(date) ==> text::cut(text, '/') matches Some(
            (day, rest),
        ) && number_in(day, 2) == Some(date.day as int) && (text::cut(rest, '/') matches Some(
            (month, year),
        ) && number_in(month, 2) == Some(date.month as int) && year_in(year) == Some(
            date.year as int,
        )),
{
    if let Some((hour, minute)) = text::cut(text, ':') {
        lemma_number_in(hour, 2);
        lemma_number_in(minute, 2);
    }
}

/// Three numbers make a date exactly where such a day exists in the years that can be represented,
/// and each of them is the part of the date that it stands for.
pub proof fn law_date_of(year: int, month: int, day: int)
    ensures
        date_of(year, month, day) is Some <==> {
            &&& -262143 <= year <= 262142
            &&& 1 <= month <= 12
            &&& 1 <= day
            &&& month == 2 ==> day <= if year % 4 == 0 && (year % 100 != 0 || year % 400 == 0) {
                29int
            } else {
                28
            }
            &&& month == 4 || month == 6 || month == 9 || month == 11 ==> day <= 30
            &&& day <= 31
        },
        date_of(year, month, day) matches Some(date) ==> date.year == year && date.month == month
            && date.day == day,
{
}

/// A number is read from its digits, at most as many as there may be, with any white space in front
/// of them; a year also from a sign and any digits behind it.
pub proof fn law_numbers(blanks: Seq<char>, digits: Seq<char>, width: nat)
    requires
        forall|i: int| 0 <= i < blanks.len() ==> text::white_space(#[trigger] blanks[i]),
        text::all_digits(digits),
        digits.len() > 0,
    ensures
        digits.len() <= width ==> number_in(blanks + digits, width) == Some(
            text::digits_value(digits),
        ),
        digits.len() > width ==> number_in(blanks + digits, width) is None,
        digits.len() <= 4 ==> year_in(blanks + digits) == Some(text::digits_value(digits)),
        digits.len() > 4 ==> year_in(blanks + digits) is None,
        year_in(blanks + seq!['+'] + digits) == Some(text::digits_value(digits)),
        year_in(blanks + seq!['-'] + digits) == Some(-text::digits_value(digits)),
{
    let plus = seq!['+'] + digits;
    let minus = seq!['-'] + digits;
    assert(blanks + seq!['+'] + digits =~= blanks + plus);
    assert(blanks + seq!['-'] + digits =~= blanks + minus);
    assert(plus.drop_first() =~= digits);
    assert(minus.drop_first() =~= digits);
    assert('0' <= digits[0] <= '9');
    text::lemma_white_front(blanks, digits);
    text::lemma_white_front(blanks, plus);
    text::lemma_white_front(blanks, minus);
}

/// Dates are written and read as day, month and year with slashes between them, times as hour and
/// minute with a colon.
pub proof fn law_formats()
    ensures
        date_format() == "%d/%m/%Y"@,
        time_format() == "%H:%M"@,
{
}

} // verus!
