//! The log: which records are written, when they say they were, and whether
//! writing them ever failed.

use crate::check::IoError;
use crate::clock::{epoch_nanos, shown_at_some_time, since_epoch, NANOS_PER_SEC};
use crate::text::{decimal, push_zero_padded, same_text, zero_padded};
use std::time::SystemTime;
use vstd::prelude::*;
use vstd::string::*;

verus! {

// ---------------------------------------------------------------------------- dates

/// Whether a year has a leap day.
pub open spec fn leap(year: int) -> bool {
    (year % 4 == 0 && year % 100 != 0) || year % 400 == 0
}

/// How many days a year has.
pub open spec fn year_days(year: int) -> int {
    if leap(year) {
        366
    } else {
        365
    }
}

/// How many days a month has. Months are counted from one.
pub open spec fn month_days(year: int, month: int) -> int {
    if month == 2 {
        if leap(year) {
            29
        } else {
            28
        }
    } else if month == 4 || month == 6 || month == 9 || month == 11 {
        30
    } else {
        31
    }
}

/// How many days lie between the start of 1970 and that of a year.
pub open spec fn days_before_year(year: int) -> int
    decreases year - 1970,
{
    if year <= 1970 {
        0
    } else {
        days_before_year(year - 1) + year_days(year - 1)
    }
}

/// How many days of a year lie before a month.
pub open spec fn days_before_month(year: int, month: int) -> int
    decreases month,
{
    if month <= 1 {
        0
    } else {
        days_before_month(year, month - 1) + month_days(year, month - 1)
    }
}

/// A day of the calendar. Months and days are counted from one.
pub struct CivilDate {
    pub year: int,
    pub month: int,
    pub day: int,
}

impl CivilDate {
    /// Whether there is such a day, in 1970 or later.
    pub open spec fn valid(self) -> bool {
        &&& self.year >= 1970
        &&& 1 <= self.month <= 12
        &&& 1 <= self.day <= month_days(self.year, self.month)
    }

    /// How many days lie between the first day of 1970 and this one.
    pub open spec fn number(self) -> int {
        days_before_year(self.year) + days_before_month(self.year, self.month) + self.day - 1
    }
}

/// The day that comes a number of days after the first one of 1970.
pub open spec fn date_of(days: nat) -> CivilDate {
    choose|date: CivilDate| #[trigger] date.valid() && date.number() == days
}

proof fn months_fill_year(year: int)
    ensures
        days_before_month(year, 13) == year_days(year),
{
    reveal_with_fuel(days_before_month, 14);
}

proof fn months_follow(year: int, a: int, b: int)
    requires
        1 <= a < b <= 13,
    ensures
        days_before_month(year, a) + month_days(year, a) <= days_before_month(year, b),
    decreases b - a,
{
    if a + 1 < b {
        months_follow(year, a, b - 1);
    }
}

proof fn years_follow(a: int, b: int)
    requires
        1970 <= a < b,
    ensures
        days_before_year(a) + year_days(a) <= days_before_year(b),
    decreases b - a,
{
    if a + 1 < b {
        years_follow(a, b - 1);
    }
}

/// A later day has a greater number.
pub proof fn days_are_numbered_in_order(a: CivilDate, b: CivilDate)
    requires
        a.valid(),
        b.valid(),
        a.year < b.year || (a.year == b.year && (a.month < b.month || (a.month == b.month && a.day
            < b.day))),
    ensures
        a.number() < b.number(),
{
    if a.year < b.year {
        years_follow(a.year, b.year);
        months_fill_year(a.year);
        months_follow(a.year, a.month, 13);
        if b.month > 1 {
            months_follow(b.year, 1, b.month);
        }
    } else if a.month < b.month {
        months_follow(a.year, a.month, b.month);
    }
}

/// A day has one date: no two dates have the same number.
pub proof fn date_is_unique(a: CivilDate, b: CivilDate)
    requires
        a.valid(),
        b.valid(),
        a.number() == b.number(),
    ensures
        a == b,
{
    if a != b {
        if a.year < b.year || (a.year == b.year && (a.month < b.month || (a.month == b.month && a.day
            < b.day))) {
            days_are_numbered_in_order(a, b);
        } else {
            days_are_numbered_in_order(b, a);
        }
    }
}

/// Tells whether a year has a leap day.
pub fn is_leap_year(y: i64) -> (answer: bool)
    ensures
        answer == leap(y as int),
        answer <==> y % 400 == 0 || (y % 4 == 0 && y % 100 != 0),
{
    (y % 4 == 0 && y % 100 != 0) || y % 400 == 0
}

fn month_length(y: i64, m: u32) -> (days: i64)
    requires
        1 <= m <= 12,
    ensures
        days == month_days(y as int, m as int),
{
    if m == 2 {
        if is_leap_year(y) {
            29
        } else {
            28
        }
    } else if m == 4 || m == 6 || m == 9 || m == 11 {
        30
    } else {
        31
    }
}

/// Finds the day that comes a number of days after the first one of 1970: its
/// year, its month and its day of the month.
pub fn civil_date(days: u64) -> (date: (i64, u32, u32))
    requires
        days <= u64::MAX / 86400,
    ensures
        (CivilDate { year: date.0 as int, month: date.1 as int, day: date.2 as int }) == date_of(
            days as nat,
        ),
        date_of(days as nat).valid(),
        date_of(days as nat).number() == days,
        date.0 >= 1970,
        1 <= date.1 <= 12,
        1 <= date.2 <= 31,
        date.1 == 4 || date.1 == 6 || date.1 == 9 || date.1 == 11 ==> date.2 <= 30,
        date.1 == 2 ==> date.2 <= 29,
{
    let mut y: i64 = 1970;
    let mut remaining: i64 = days as i64;
    loop
        invariant
            days <= u64::MAX / 86400,
            1970 <= y <= 1970 + days,
            0 <= remaining <= days,
            days_before_year(y as int) + remaining == days,
            y - 1970 + remaining <= days,
        ensures
            remaining < year_days(y as int),
        decreases remaining,
    {
        let days_in_year: i64 = if is_leap_year(y) {
            366
        } else {
            365
        };
        if remaining < days_in_year {
            break;
        }
        remaining = remaining - days_in_year;
        y = y + 1;
    }
    let ghost in_year = remaining as int;
    let mut m: u32 = 1;
    proof {
        months_fill_year(y as int);
    }
    while m < 12 && remaining >= month_length(y, m)
        invariant
            1 <= m <= 12,
            0 <= remaining,
            in_year < days_before_month(y as int, 13),
            days_before_month(y as int, m as int) + remaining == in_year,
        decreases 12 - m,
    {
        remaining = remaining - month_length(y, m);
        m = m + 1;
    }
    proof {
        if m == 12 {
            assert(days_before_month(y as int, 13) == days_before_month(y as int, 12) + month_days(
                y as int,
                12,
            ));
        }
        let found = CivilDate { year: y as int, month: m as int, day: remaining + 1 };
        assert(found.valid());
        assert(found.number() == days);
        date_is_unique(found, date_of(days as nat));
    }
    (y, m, (remaining + 1) as u32)
}

// ----------------------------------------------------------------------- timestamps

/// A date as it is written: `YYYY-MM-DD`.
pub open spec fn date_text(date: CivilDate) -> Seq<char> {
    zero_padded(date.year as nat, 4) + "-"@ + zero_padded(date.month as nat, 2) + "-"@
        + zero_padded(date.day as nat, 2)
}

/// A second of a day as it is written: `HH:MM:SS`.
pub open spec fn clock_text(secs: nat) -> Seq<char> {
    zero_padded(secs / 3600, 2) + ":"@ + zero_padded((secs % 3600) / 60, 2) + ":"@ + zero_padded(
        secs % 60,
        2,
    )
}

/// A second of Unix time in ISO 8601, in UTC.
pub open spec fn timestamp_text(secs: nat) -> Seq<char> {
    date_text(date_of(secs / 86400)) + "T"@ + clock_text(secs % 86400) + "Z"@
}

/// Writes a second of Unix time in ISO 8601.
pub fn format_timestamp(secs: u64) -> (text: String)
    ensures
        text@ == timestamp_text(secs as nat),
{
    let (y, m, d) = civil_date(secs / 86400);
    let time: u64 = secs % 86400;
    let mut text: String = String::new();
    push_zero_padded(&mut text, y as u64, 4);
    text.append("-");
    push_zero_padded(&mut text, m as u64, 2);
    text.append("-");
    push_zero_padded(&mut text, d as u64, 2);
    text.append("T");
    push_zero_padded(&mut text, time / 3600, 2);
    text.append(":");
    push_zero_padded(&mut text, (time % 3600) / 60, 2);
    text.append(":");
    push_zero_padded(&mut text, time % 60, 2);
    text.append("Z");
    assert(text@ =~= timestamp_text(secs as nat));
    text
}

/// A reading of the wall clock in seconds of Unix time. One from before that
/// began counts as its beginning.
pub open spec fn unix_secs(t: SystemTime) -> nat {
    match epoch_nanos(t) {
        Some(nanos) => nanos / NANOS_PER_SEC as nat,
        None => 0,
    }
}

/// Writes what the wall clock shows, in ISO 8601.
pub fn chrono_now() -> (text: String)
    ensures
        exists|t: SystemTime|
            shown_at_some_time(t) && text@ == timestamp_text(#[trigger] unix_secs(t)),
{
    let now = SystemTime::now();
    let secs: u64 = match since_epoch(now) {
        Some(passed) => passed.as_secs(),
        None => 0,
    };
    assert(secs == unix_secs(now));
    format_timestamp(secs)
}

/// The number of leap days before a year, counted from the first one.
spec fn leap_days_before(year: int) -> int {
    (year - 1) / 4 - (year - 1) / 100 + (year - 1) / 400
}

proof fn days_before_year_closed(year: int)
    requires
        year >= 1970,
    ensures
        days_before_year(year) == 365 * (year - 1970) + leap_days_before(year) - leap_days_before(
            1970,
        ),
    decreases year,
{
    if year > 1970 {
        days_before_year_closed(year - 1);
    }
}

proof fn two_digits(n: nat)
    requires
        n < 100,
    ensures
        zero_padded(n, 2).len() == 2,
{
    reveal_with_fuel(decimal, 3);
}

proof fn four_digits(n: nat)
    requires
        n < 10000,
    ensures
        zero_padded(n, 4).len() == 4,
{
    reveal_with_fuel(decimal, 5);
}

/// The last second that is written with a year of four digits, and one more.
pub const FIVE_DIGIT_YEARS: u64 = 253_402_300_800;

/// Up to the year 9999 a timestamp has twenty characters, with the separators of
/// ISO 8601 in their places.
pub proof fn timestamp_has_iso_shape(secs: nat)
    requires
        secs < FIVE_DIGIT_YEARS,
    ensures
        timestamp_text(secs).len() == 20,
        timestamp_text(secs)[4] == '-',
        timestamp_text(secs)[7] == '-',
        timestamp_text(secs)[10] == 'T',
        timestamp_text(secs)[13] == ':',
        timestamp_text(secs)[16] == ':',
        timestamp_text(secs)[19] == 'Z',
{
    reveal_strlit("-");
    reveal_strlit("T");
    reveal_strlit(":");
    reveal_strlit("Z");
    let days = secs / 86400;
    let date = date_of(days);
    date_exists(days);
    if date.year >= 10000 {
        days_before_year_closed(10000);
        if date.year > 10000 {
            years_follow(10000, date.year);
        }
        if date.month > 1 {
            months_follow(date.year, 1, date.month);
        }
    }
    let time = secs % 86400;
    four_digits(date.year as nat);
    two_digits(date.month as nat);
    two_digits(date.day as nat);
    two_digits(time / 3600);
    two_digits((time % 3600) / 60);
    two_digits(time % 60);
}

/// A date and a time of day that a timestamp is made of belong to its second and
/// to no other.
pub proof fn timestamp_tells_the_second(secs: nat)
    ensures
        date_of(secs / 86400).valid(),
        date_of(secs / 86400).number() * 86400 + (secs % 86400) / 3600 * 3600 + (secs % 3600) / 60
            * 60 + secs % 60 == secs,
        (secs % 86400) / 3600 < 24,
        (secs % 3600) / 60 < 60,
{
    date_exists(secs / 86400);
}

/// Every day has a date.
proof fn date_exists(days: nat)
    ensures
        date_of(days).valid(),
        date_of(days).number() == days,
{
    let year = year_reached(days, 1970);
    let month = month_reached(year, days - days_before_year(year), 1);
    let date = CivilDate {
        year,
        month,
        day: days - days_before_year(year) - days_before_month(year, month) + 1,
    };
    assert(date.valid() && date.number() == days);
}

proof fn year_reached(days: nat, from: int) -> (year: int)
    requires
        from >= 1970,
        days_before_year(from) <= days,
    ensures
        year >= 1970,
        days_before_year(year) <= days < days_before_year(year) + year_days(year),
    decreases days - days_before_year(from),
{
    if days < days_before_year(from) + year_days(from) {
        from
    } else {
        year_reached(days, from + 1)
    }
}

proof fn month_reached(year: int, day: int, from: int) -> (month: int)
    requires
        1 <= from <= 12,
        days_before_month(year, from) <= day < year_days(year),
    ensures
        1 <= month <= 12,
        days_before_month(year, month) <= day < days_before_month(year, month) + month_days(
            year,
            month,
        ),
    decreases 12 - from,
{
    if day < days_before_month(year, from) + month_days(year, from) {
        from
    } else {
        months_fill_year(year);
        month_reached(year, day, from + 1)
    }
}

// --------------------------------------------------------------------------- levels

/// How grave a record is, from the gravest on. As a filter, the last level that
/// is still written.
#[derive(Debug, Clone, Copy, PartialEq, Eq, Structural)]
pub enum LogLevel {
    Error,
    Warn,
    Info,
    Debug,
    Trace,
}

impl LogLevel {
    /// The place of a level: the graver, the lower.
    pub open spec fn rank(self) -> int {
        match self {
            LogLevel::Error => 1,
            LogLevel::Warn => 2,
            LogLevel::Info => 3,
            LogLevel::Debug => 4,
            LogLevel::Trace => 5,
        }
    }

    fn place(self) -> (place: u8)
        ensures
            place == self.rank(),
    {
        match self {
            LogLevel::Error => 1,
            LogLevel::Warn => 2,
            LogLevel::Info => 3,
            LogLevel::Debug => 4,
            LogLevel::Trace => 5,
        }
    }

    /// The name of a level in the log.
    pub open spec fn text(self) -> Seq<char> {
        match self {
            LogLevel::Error => "ERROR"@,
            LogLevel::Warn => "WARN"@,
            LogLevel::Info => "INFO"@,
            LogLevel::Debug => "DEBUG"@,
            LogLevel::Trace => "TRACE"@,
        }
    }

    /// Names a level.
    pub fn name(self) -> (name: &'static str)
        ensures
            name@ == self.text(),
            match self {
                LogLevel::Error => name@ == "ERROR"@,
                LogLevel::Warn => name@ == "WARN"@,
                LogLevel::Info => name@ == "INFO"@,
                LogLevel::Debug => name@ == "DEBUG"@,
                LogLevel::Trace => name@ == "TRACE"@,
            },
    {
        match self {
            LogLevel::Error => "ERROR",
            LogLevel::Warn => "WARN",
            LogLevel::Info => "INFO",
            LogLevel::Debug => "DEBUG",
            LogLevel::Trace => "TRACE",
        }
    }
}

/// Whether a record of this level passes a filter.
pub open spec fn passes(level: LogLevel, filter: LogLevel) -> bool {
    level.rank() <= filter.rank()
}

/// Tells whether a record of this level passes a filter.
pub fn enabled(level: LogLevel, filter: LogLevel) -> (answer: bool)
    ensures
        answer == passes(level, filter),
        match filter {
            LogLevel::Error => answer <==> level == LogLevel::Error,
            LogLevel::Warn => answer <==> level == LogLevel::Error || level == LogLevel::Warn,
            LogLevel::Info => answer <==> level != LogLevel::Debug && level != LogLevel::Trace,
            LogLevel::Debug => answer <==> level != LogLevel::Trace,
            LogLevel::Trace => answer,
        },
{
    level.place() <= filter.place()
}

/// The filter that is named by a word, where one is.
pub open spec fn level_named(word: Seq<char>) -> Option<LogLevel> {
    if word == "error"@ {
        Some(LogLevel::Error)
    } else if word == "warn"@ {
        Some(LogLevel::Warn)
    } else if word == "info"@ {
        Some(LogLevel::Info)
    } else if word == "debug"@ {
        Some(LogLevel::Debug)
    } else {
        None
    }
}

/// Finds the filter that is named by a word.
pub fn parse_level(word: &str) -> (level: Option<LogLevel>)
    ensures
        level == level_named(word@),
        level == Some(LogLevel::Error) <==> word@ == "error"@,
        level == Some(LogLevel::Warn) <==> word@ == "warn"@,
        level == Some(LogLevel::Info) <==> word@ == "info"@,
        level == Some(LogLevel::Debug) <==> word@ == "debug"@,
        level != Some(LogLevel::Trace),
{
    proof {
        words_name_levels(word@);
    }
    if same_text(word, "error") {
        Some(LogLevel::Error)
    } else if same_text(word, "warn") {
        Some(LogLevel::Warn)
    } else if same_text(word, "info") {
        Some(LogLevel::Info)
    } else if same_text(word, "debug") {
        Some(LogLevel::Debug)
    } else {
        None
    }
}

/// Chooses the filter of the log. A word that names none stands for `info`.
pub fn level_filter(word: &str) -> (filter: LogLevel)
    ensures
        filter == match level_named(word@) {
            Some(level) => level,
            None => LogLevel::Info,
        },
        filter == LogLevel::Error <==> word@ == "error"@,
        filter == LogLevel::Warn <==> word@ == "warn"@,
        filter == LogLevel::Debug <==> word@ == "debug"@,
        filter != LogLevel::Trace,
{
    proof {
        words_name_levels(word@);
    }
    match parse_level(word) {
        Some(level) => level,
        None => LogLevel::Info,
    }
}

// -------------------------------------------------------------------------- records

/// A record as it is written.
pub open spec fn record_text(timestamp: Seq<char>, level: LogLevel, message: Seq<char>) -> Seq<
    char,
> {
    "["@ + timestamp + "] ["@ + level.text() + "] "@ + message
}

/// Writes a record that passes the filter; another one is left out.
pub fn format_record(filter: LogLevel, timestamp: &str, level: LogLevel, message: &str) -> (line:
    Option<String>)
    ensures
        line is Some == passes(level, filter),
        line matches Some(text) ==> text@ == record_text(timestamp@, level, message@),
        line matches Some(text) ==> text@ == "["@ + timestamp@ + "] ["@ + level.text() + "] "@
            + message@,
{
    if !enabled(level, filter) {
        return None;
    }
    let mut text: String = "[".to_owned();
    text.append(timestamp);
    text.append("] [");
    text.append(level.name());
    text.append("] ");
    text.append(message);
    Some(text)
}

/// Whether writing the log has failed yet.
#[derive(Debug)]
pub struct LogHealth {
    failed: bool,
}

impl LogHealth {
    /// Whether writing the log has failed.
    pub closed spec fn failed(self) -> bool {
        self.failed
    }

    /// A log that was not written to yet.
    pub fn new() -> (health: Self)
        ensures
            !health.failed(),
    {
        LogHealth { failed: false }
    }

    /// Takes down whether something was written. A failure is not forgotten.
    pub fn record(&mut self, written: bool)
        ensures
            final(self).failed() == (old(self).failed() || !written),
    {
        if !written {
            self.failed = true;
        }
    }
}

/// Tells whether writing the log has failed yet.
pub fn has_write_error(health: &LogHealth) -> (answer: bool)
    ensures
        answer == health.failed(),
{
    health.failed
}

/// Why there is no log.
#[derive(Debug)]
pub enum LoggingError {
    Io(IoError),
}

impl LoggingError {
    /// The message of the error.
    pub open spec fn text(self) -> Seq<char> {
        match self {
            LoggingError::Io(e) => "failed to open log file: "@ + e.message@,
        }
    }

    /// Writes the message of the error.
    pub fn message(&self) -> (message: String)
        ensures
            message@ == self.text(),
            match *self {
                LoggingError::Io(e) => message@ == "failed to open log file: "@ + e.message@,
            },
    {
        match self {
            LoggingError::Io(e) => "failed to open log file: ".to_owned().concat(
                e.message.as_str(),
            ),
        }
    }
}

// ----------------------------------------------------------------------------- laws

/// The months are those of the Gregorian calendar: thirty days have April, June,
/// September and November, February has twenty-eight or in a leap year twenty-nine,
/// and all others have thirty-one.
pub proof fn months_are_gregorian(year: int)
    ensures
        month_days(year, 1) == 31,
        month_days(year, 2) == if year % 400 == 0 || (year % 4 == 0 && year % 100 != 0) {
            29int
        } else {
            28
        },
        month_days(year, 3) == 31,
        month_days(year, 4) == 30,
        month_days(year, 5) == 31,
        month_days(year, 6) == 30,
        month_days(year, 7) == 31,
        month_days(year, 8) == 31,
        month_days(year, 9) == 30,
        month_days(year, 10) == 31,
        month_days(year, 11) == 30,
        month_days(year, 12) == 31,
{
}

/// How many days of a year lie before each month: those of a common year, and one
/// more from March on where there is a leap day.
pub proof fn days_before_each_month(year: int)
    ensures
        ({
            let leap_day = if year % 400 == 0 || (year % 4 == 0 && year % 100 != 0) {
                1int
            } else {
                0
            };
            &&& days_before_month(year, 1) == 0
            &&& days_before_month(year, 2) == 31
            &&& days_before_month(year, 3) == 59 + leap_day
            &&& days_before_month(year, 4) == 90 + leap_day
            &&& days_before_month(year, 5) == 120 + leap_day
            &&& days_before_month(year, 6) == 151 + leap_day
            &&& days_before_month(year, 7) == 181 + leap_day
            &&& days_before_month(year, 8) == 212 + leap_day
            &&& days_before_month(year, 9) == 243 + leap_day
            &&& days_before_month(year, 10) == 273 + leap_day
            &&& days_before_month(year, 11) == 304 + leap_day
            &&& days_before_month(year, 12) == 334 + leap_day
            &&& year_days(year) == 365 + leap_day
        }),
{
    reveal_with_fuel(days_before_month, 13);
}

/// A year lies 365 days for every year since 1970 after the start of that year, and
/// one more for every leap year between: one in four, but one in a hundred is none,
/// and one in four hundred is. There were 477 of them before 1970.
pub proof fn years_are_gregorian(year: int)
    requires
        year >= 1970,
    ensures
        days_before_year(year) == 365 * (year - 1970) + (year - 1) / 4 - (year - 1) / 100 + (year
            - 1) / 400 - 477,
{
    days_before_year_closed(year);
}

/// The date of a day is that of the Gregorian calendar: the days of the years, of the
/// months and of the month before it add up to its number.
pub proof fn dates_are_gregorian(days: nat)
    ensures
        ({
            let date = date_of(days);
            let (y, m) = (date.year, date.month);
            let leap_day = y % 400 == 0 || (y % 4 == 0 && y % 100 != 0);
            let length = if m == 2 {
                if leap_day {
                    29int
                } else {
                    28
                }
            } else if m == 4 || m == 6 || m == 9 || m == 11 {
                30
            } else {
                31
            };
            let months = seq![0int, 31, 59, 90, 120, 151, 181, 212, 243, 273, 304, 334];
            &&& y >= 1970
            &&& 1 <= m <= 12
            &&& 1 <= date.day <= length
            &&& days == 365 * (y - 1970) + (y - 1) / 4 - (y - 1) / 100 + (y - 1) / 400 - 477
                + months[m - 1] + (if leap_day && m > 2 {
                1int
            } else {
                0
            }) + date.day - 1
        }),
{
    let date = date_of(days);
    date_exists(days);
    years_are_gregorian(date.year);
    days_before_each_month(date.year);
    months_are_gregorian(date.year);
}

/// Tomorrow follows today: it is the next day of the month, or the first of the next
/// month, or the first of January of the next year.
pub proof fn tomorrow_follows_today(days: nat)
    ensures
        ({
            let today = date_of(days);
            let next = date_of(days + 1);
            let last = today.day == month_days(today.year, today.month);
            &&& !last ==> next == (CivilDate { day: today.day + 1, ..today })
            &&& last && today.month < 12 ==> next == (CivilDate {
                year: today.year,
                month: today.month + 1,
                day: 1,
            })
            &&& last && today.month == 12 ==> next == (CivilDate {
                year: today.year + 1,
                month: 1,
                day: 1,
            })
        }),
        date_of(0) == (CivilDate { year: 1970, month: 1, day: 1 }),
{
    date_exists(days);
    date_exists(days + 1);
    date_exists(0);
    let today = date_of(days);
    let next = if today.day < month_days(today.year, today.month) {
        CivilDate { day: today.day + 1, ..today }
    } else if today.month < 12 {
        CivilDate { year: today.year, month: today.month + 1, day: 1 }
    } else {
        CivilDate { year: today.year + 1, month: 1, day: 1 }
    };
    months_fill_year(today.year);
    assert(next.valid());
    assert(next.number() == days + 1);
    date_is_unique(next, date_of(days + 1));
    date_is_unique(CivilDate { year: 1970, month: 1, day: 1 }, date_of(0));
}

/// A timestamp is written from the year down to the second: of the second `s` of the
/// minute `m` of the hour `h` of a day.
pub proof fn timestamp_reads_from_year_to_second(days: nat, h: nat, m: nat, s: nat)
    requires
        h < 24,
        m < 60,
        s < 60,
    ensures
        timestamp_text(((days * 24 + h) * 60 + m) * 60 + s) == zero_padded(
            date_of(days).year as nat,
            4,
        ) + seq!['-'] + zero_padded(date_of(days).month as nat, 2) + seq!['-'] + zero_padded(
            date_of(days).day as nat,
            2,
        ) + seq!['T'] + zero_padded(h, 2) + seq![':'] + zero_padded(m, 2) + seq![':']
            + zero_padded(s, 2) + seq!['Z'],
{
    reveal_strlit("-");
    reveal_strlit("T");
    reveal_strlit(":");
    reveal_strlit("Z");
    let secs = ((days * 24 + h) * 60 + m) * 60 + s;
    let time = h * 3600 + m * 60 + s;
    assert(secs == days * 86400 + time);
    assert(secs / 86400 == days && secs % 86400 == time);
    assert(time / 3600 == h && (time % 3600) / 60 == m && time % 60 == s);
    assert(timestamp_text(secs) =~= zero_padded(date_of(days).year as nat, 4) + seq!['-']
        + zero_padded(date_of(days).month as nat, 2) + seq!['-'] + zero_padded(
        date_of(days).day as nat,
        2,
    ) + seq!['T'] + zero_padded(h, 2) + seq![':'] + zero_padded(m, 2) + seq![':'] + zero_padded(
        s,
        2,
    ) + seq!['Z']);
}

/// The wall clock is read to the whole second, and from the Unix epoch on.
pub proof fn clock_is_read_to_the_second(t: SystemTime)
    ensures
        epoch_nanos(t) is None ==> unix_secs(t) == 0,
        epoch_nanos(t) matches Some(nanos) ==> unix_secs(t) * 1_000_000_000 <= nanos < (unix_secs(t)
            + 1) * 1_000_000_000,
{
}

/// A filter lets a record pass together with all graver ones: errors always pass, and
/// then warnings, information and details, in this order.
pub proof fn graver_records_pass_too(level: LogLevel, filter: LogLevel)
    ensures
        passes(LogLevel::Error, filter),
        passes(LogLevel::Warn, filter) <==> filter != LogLevel::Error,
        passes(LogLevel::Info, filter) <==> filter != LogLevel::Error && filter != LogLevel::Warn,
        passes(LogLevel::Debug, filter) <==> filter == LogLevel::Debug || filter == LogLevel::Trace,
        passes(LogLevel::Trace, filter) <==> filter == LogLevel::Trace,
        passes(level, filter) && passes(filter, level) ==> level == filter,
{
}

/// Four words name a level, each its own.
pub proof fn words_name_levels(word: Seq<char>)
    ensures
        level_named(word) == Some(LogLevel::Error) <==> word == "error"@,
        level_named(word) == Some(LogLevel::Warn) <==> word == "warn"@,
        level_named(word) == Some(LogLevel::Info) <==> word == "info"@,
        level_named(word) == Some(LogLevel::Debug) <==> word == "debug"@,
        level_named(word) != Some(LogLevel::Trace),
{
    reveal_strlit("error");
    reveal_strlit("warn");
    reveal_strlit("info");
    reveal_strlit("debug");
    assert("warn"@[0] == 'w' && "info"@[0] == 'i' && "error"@[0] == 'e' && "debug"@[0] == 'd');
}

/// A level is written in the log by its name in capitals.
pub proof fn levels_have_names(level: LogLevel)
    ensures
        level.text() == match level {
            LogLevel::Error => seq!['E', 'R', 'R', 'O', 'R'],
            LogLevel::Warn => seq!['W', 'A', 'R', 'N'],
            LogLevel::Info => seq!['I', 'N', 'F', 'O'],
            LogLevel::Debug => seq!['D', 'E', 'B', 'U', 'G'],
            LogLevel::Trace => seq!['T', 'R', 'A', 'C', 'E'],
        },
{
    reveal_strlit("ERROR");
    reveal_strlit("WARN");
    reveal_strlit("INFO");
    reveal_strlit("DEBUG");
    reveal_strlit("TRACE");
    match level {
        LogLevel::Error => assert(level.text() =~= seq!['E', 'R', 'R', 'O', 'R']),
        LogLevel::Warn => assert(level.text() =~= seq!['W', 'A', 'R', 'N']),
        LogLevel::Info => assert(level.text() =~= seq!['I', 'N', 'F', 'O']),
        LogLevel::Debug => assert(level.text() =~= seq!['D', 'E', 'B', 'U', 'G']),
        LogLevel::Trace => assert(level.text() =~= seq!['T', 'R', 'A', 'C', 'E']),
    }
}

/// A record is its time and its level in brackets, and then the message.
pub proof fn records_tell_time_level_and_message(
    timestamp: Seq<char>,
    level: LogLevel,
    message: Seq<char>,
)
    ensures
        record_text(timestamp, level, message) == seq!['['] + timestamp + seq![']', ' ', '[']
            + level.text() + seq![']', ' '] + message,
{
    reveal_strlit("[");
    reveal_strlit("] [");
    reveal_strlit("] ");
    assert(record_text(timestamp, level, message) =~= seq!['['] + timestamp + seq![']', ' ', '[']
        + level.text() + seq![']', ' '] + message);
}

}
