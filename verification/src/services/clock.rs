//! The wall clock as plain values, and the ways the player writes it out.

use chrono::Datelike;
use chrono::Timelike;
use vstd::prelude::*;
use vstd::string::*;

verus! {

/// A local date and time of day.
#[derive(Debug, Clone, Copy, PartialEq, Eq, Structural)]
pub struct WallClock {
    pub year: i32,
    pub month: u8,
    pub day: u8,
    pub hour: u8,
    pub minute: u8,
    pub second: u8,
}

/// Whether a year of the Gregorian calendar has a 29th of February.
pub open spec fn is_leap_year(year: int) -> bool {
    (year % 4 == 0 && year % 100 != 0) || year % 400 == 0
}

/// The number of days of a month.
pub open spec fn days_in_month(year: int, month: int) -> int {
    if month == 2 {
        if is_leap_year(year) {
            29
        } else {
            28
        }
    } else if month == 4 || month == 6 || month == 9 || month == 11 {
        30
    } else {
        31
    }
}

/// The ways a clock reading is written out.
#[derive(Debug, Clone, Copy, PartialEq, Eq, Structural)]
pub enum ClockFormat {
    /// `%Y-%m-%d %H:%M:%S`
    Stamp,
    /// `%H:%M:%S`
    Time,
    /// `%H:%M`
    TimeShort,
    /// `%I:%M:%S %p`
    TimeHalfDay,
    /// `%I:%M %p`
    TimeHalfDayShort,
    /// `%Y/%m/%d`
    DateYearFirst,
    /// `%m/%d/%Y`
    DateMonthFirst,
    /// `%d/%m/%Y`
    DateDayFirst,
    /// `%b %d, %Y`
    DateNamedMonth,
    /// `%d %b, %Y`
    DateDayNamedMonth,
    /// `%A`
    WeekdayName,
    /// `%a`
    WeekdayShort,
}

impl ClockFormat {
    /// The pattern of the format, in `strftime` notation.
    pub open spec fn spec_pattern(self) -> Seq<char> {
        match self {
            ClockFormat::Stamp => "%Y-%m-%d %H:%M:%S"@,
            ClockFormat::Time => "%H:%M:%S"@,
            ClockFormat::TimeShort => "%H:%M"@,
            ClockFormat::TimeHalfDay => "%I:%M:%S %p"@,
            ClockFormat::TimeHalfDayShort => "%I:%M %p"@,
            ClockFormat::DateYearFirst => "%Y/%m/%d"@,
            ClockFormat::DateMonthFirst => "%m/%d/%Y"@,
            ClockFormat::DateDayFirst => "%d/%m/%Y"@,
            ClockFormat::DateNamedMonth => "%b %d, %Y"@,
            ClockFormat::DateDayNamedMonth => "%d %b, %Y"@,
            ClockFormat::WeekdayName => "%A"@,
            ClockFormat::WeekdayShort => "%a"@,
        }
    }

    /// The pattern of the format, in `strftime` notation.
    pub fn pattern(self) -> (r: &'static str)
        ensures
            r@ == self.spec_pattern(),
    {
        match self {
            ClockFormat::Stamp => "%Y-%m-%d %H:%M:%S",
            ClockFormat::Time => "%H:%M:%S",
            ClockFormat::TimeShort => "%H:%M",
            ClockFormat::TimeHalfDay => "%I:%M:%S %p",
            ClockFormat::TimeHalfDayShort => "%I:%M %p",
            ClockFormat::DateYearFirst => "%Y/%m/%d",
            ClockFormat::DateMonthFirst => "%m/%d/%Y",
            ClockFormat::DateDayFirst => "%d/%m/%Y",
            ClockFormat::DateNamedMonth => "%b %d, %Y",
            ClockFormat::DateDayNamedMonth => "%d %b, %Y",
            ClockFormat::WeekdayName => "%A",
            ClockFormat::WeekdayShort => "%a",
        }
    }
}

/// The patterns that the player formats with.
pub open spec fn known_pattern(p: Seq<char>) -> bool {
    exists|f: ClockFormat| p == #[trigger] f.spec_pattern()
}

/// What `chrono` writes for a date and time of day under a `strftime`
/// pattern.
pub uninterp spec fn strftime(
    year: int,
    month: int,
    day: int,
    hour: int,
    minute: int,
    second: int,
    pattern: Seq<char>,
) -> Seq<char>;

/// The local date and time of `chrono::Local::now`, field by field. The
/// contract states only that the reading is a date of the calendar and a time
/// of day.
#[verifier::external_body]
fn local_now() -> (now: WallClock)
    ensures
        now.valid(),
{
    let t = chrono::Local::now();
    WallClock {
        year: t.year(),
        month: t.month() as u8,
        day: t.day() as u8,
        hour: t.hour() as u8,
        minute: t.minute() as u8,
        second: t.second() as u8,
    }
}

/// `chrono::NaiveDateTime::format` on the date from
/// `chrono::NaiveDate::from_ymd_opt` and the time from `and_hms_opt`. The
/// result is named, not stated; the date has to exist and the pattern has to
/// be one of the player's, so that neither construction nor formatting fails.
#[verifier::external_body]
fn format_reading(now: &WallClock, pattern: &str) -> (r: String)
    requires
        now.valid(),
        known_pattern(pattern@),
    ensures
        r@ == strftime(
            now.year as int,
            now.month as int,
            now.day as int,
            now.hour as int,
            now.minute as int,
            now.second as int,
            pattern@,
        ),
{
    let date = chrono::NaiveDate::from_ymd_opt(now.year, now.month as u32, now.day as u32).unwrap();
    let at = date.and_hms_opt(now.hour as u32, now.minute as u32, now.second as u32).unwrap();
    at.format(pattern).to_string()
}

impl WallClock {
    /// The reading is a date of the calendar and a time of day.
    pub open spec fn valid(&self) -> bool {
        &&& -262143 <= self.year <= 262142
        &&& 1 <= self.month <= 12
        &&& 1 <= self.day <= days_in_month(self.year as int, self.month as int)
        &&& self.hour <= 23
        &&& self.minute <= 59
        &&& self.second <= 59
    }

    /// What the reading looks like in a format.
    pub open spec fn text(&self, format: ClockFormat) -> Seq<char> {
        strftime(
            self.year as int,
            self.month as int,
            self.day as int,
            self.hour as int,
            self.minute as int,
            self.second as int,
            format.spec_pattern(),
        )
    }

    /// Minutes since midnight.
    pub open spec fn spec_minutes(&self) -> int {
        self.hour * 60 + self.minute
    }

    /// Reads the local clock.
    pub fn now() -> (now: WallClock)
        ensures
            now.valid(),
    {
        local_now()
    }

    /// Whether the reading is a date of the calendar and a time of day.
    pub fn is_valid(&self) -> (r: bool)
        ensures
            r == self.valid(),
    {
        if self.year < -262143 || self.year > 262142 {
            return false;
        }
        if self.month < 1 || self.month > 12 || self.day < 1 {
            return false;
        }
        if self.hour > 23 || self.minute > 59 || self.second > 59 {
            return false;
        }
        let y: i32 = self.year;
        let leap: bool = (y % 4 == 0 && y % 100 != 0) || y % 400 == 0;
        let days: u8 = if self.month == 2 {
            if leap {
                29
            } else {
                28
            }
        } else if self.month == 4 || self.month == 6 || self.month == 9 || self.month == 11 {
            30
        } else {
            31
        };
        self.day <= days
    }

    /// Writes the reading out in a format.
    pub fn format(&self, format: ClockFormat) -> (r: String)
        requires
            self.valid(),
        ensures
            r@ == self.text(format),
    {
        format_reading(self, format.pattern())
    }

    /// Minutes since midnight.
    pub fn minutes(&self) -> (r: u16)
        requires
            self.valid(),
        ensures
            r == self.spec_minutes(),
            r < 1440,
    {
        self.hour as u16 * 60 + self.minute as u16
    }
}

} // verus!
