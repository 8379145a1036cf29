//! Clock content: the lines that a clock shows.

use crate::program::model::ClockContent;
use crate::program::model::ClockField;
use crate::program::model::color_of;
use crate::program::model::parse_color;
use crate::services::clock::ClockFormat;
use crate::services::clock::WallClock;
use crate::text::str_eq;
use vstd::prelude::*;
use vstd::string::*;
use vstd::utf8::*;

verus! {

/// One line of a clock: its text and its colour.
#[derive(Debug)]
pub struct ClockLine {
    pub text: String,
    pub color: (u8, u8, u8),
}

/// A line of a clock with its text as a character sequence.
pub struct ClockLineView {
    pub text: Seq<char>,
    pub color: (u8, u8, u8),
}

impl View for ClockLine {
    type V = ClockLineView;

    open spec fn view(&self) -> ClockLineView {
        ClockLineView { text: self.text@, color: self.color }
    }
}

/// The lines of a clock with their texts as character sequences.
pub open spec fn line_views(lines: Seq<ClockLine>) -> Seq<ClockLineView> {
    Seq::new(lines.len(), |i: int| lines[i]@)
}

/// The format of the date line for a format code.
pub open spec fn date_format(code: Seq<char>) -> ClockFormat {
    if code == "2"@ {
        ClockFormat::DateMonthFirst
    } else if code == "3"@ {
        ClockFormat::DateDayFirst
    } else if code == "4"@ {
        ClockFormat::DateNamedMonth
    } else if code == "5"@ {
        ClockFormat::DateDayNamedMonth
    } else {
        ClockFormat::DateYearFirst
    }
}

/// The format of the week line for a format code.
pub open spec fn week_format(code: Seq<char>) -> ClockFormat {
    if code == "3"@ {
        ClockFormat::WeekdayShort
    } else {
        ClockFormat::WeekdayName
    }
}

/// The format of the time line for a format code.
pub open spec fn time_format(code: Seq<char>) -> ClockFormat {
    if code == "2"@ {
        ClockFormat::TimeShort
    } else if code == "3"@ {
        ClockFormat::TimeHalfDay
    } else if code == "4"@ {
        ClockFormat::TimeHalfDayShort
    } else {
        ClockFormat::Time
    }
}

/// The line of a field that is there and displayed.
pub open spec fn field_line(field: Option<ClockField>, format: ClockFormat, now: WallClock) -> Seq<
    ClockLineView,
> {
    match field {
        Some(f) => if f.display {
            seq![ClockLineView { text: now.text(format), color: color_of(encode_utf8(f.color@)) }]
        } else {
            Seq::empty()
        },
        None => Seq::empty(),
    }
}

/// The format code of a field, empty where there is none.
pub open spec fn code_of(field: Option<ClockField>) -> Seq<char> {
    match field {
        Some(f) => f.format@,
        None => Seq::empty(),
    }
}

/// The lines that the fields of a clock ask for: date, week and time, in
/// this order, each where it is there and displayed.
pub open spec fn asked_lines(clock: ClockContent, now: WallClock) -> Seq<ClockLineView> {
    field_line(clock.date, date_format(code_of(clock.date)), now) + field_line(
        clock.week,
        week_format(code_of(clock.week)),
        now,
    ) + field_line(clock.time, time_format(code_of(clock.time)), now)
}

/// The lines that a clock shows: those its fields ask for, or, where they
/// ask for none, the time of day in white.
pub open spec fn clock_lines(clock: ClockContent, now: WallClock) -> Seq<ClockLineView> {
    if asked_lines(clock, now).len() == 0 {
        seq![ClockLineView { text: now.text(ClockFormat::Time), color: (255u8, 255u8, 255u8) }]
    } else {
        asked_lines(clock, now)
    }
}

/// The height of a line of a clock, as a fraction of pixels.
#[derive(Debug, Clone, Copy, PartialEq, Eq, Structural)]
pub struct LineSize {
    pub num: u64,
    pub den: u64,
}

/// The height at which the lines of a clock are set: the lines share the
/// height of the area, and a single line takes four fifths of it.
pub open spec fn line_size(height: u32, lines: nat) -> LineSize {
    if lines <= 1 {
        LineSize { num: (4 * height) as u64, den: 5 }
    } else {
        LineSize { num: height as u64, den: lines as u64 }
    }
}

/// Where a line of a given width starts in an area of a given width: in
/// the centre, or at the left edge where it does not fit.
pub open spec fn line_start(width: u32, line_width: i32) -> int {
    if width - line_width < 0 {
        0
    } else {
        (width - line_width) / 2
    }
}

/// The height at which the lines of a clock are set.
pub fn clock_line_size(height: u32, lines: usize) -> (r: LineSize)
    ensures
        r == line_size(height, lines as nat),
        r.den > 0,
{
    if lines <= 1 {
        LineSize { num: 4 * height as u64, den: 5 }
    } else {
        LineSize { num: height as u64, den: lines as u64 }
    }
}

/// Where a line of a given width starts in an area of a given width.
pub fn clock_line_start(width: u32, line_width: i32) -> (r: i64)
    ensures
        r == line_start(width, line_width),
{
    let free: i64 = width as i64 - line_width as i64;
    if free < 0 {
        0
    } else {
        free / 2
    }
}

/// The format of the date line for a format code.
fn date_format_of(code: &str) -> (r: ClockFormat)
    ensures
        r == date_format(code@),
{
    if str_eq(code, "2") {
        ClockFormat::DateMonthFirst
    } else if str_eq(code, "3") {
        ClockFormat::DateDayFirst
    } else if str_eq(code, "4") {
        ClockFormat::DateNamedMonth
    } else if str_eq(code, "5") {
        ClockFormat::DateDayNamedMonth
    } else {
        ClockFormat::DateYearFirst
    }
}

/// The format of the week line for a format code.
fn week_format_of(code: &str) -> (r: ClockFormat)
    ensures
        r == week_format(code@),
{
    if str_eq(code, "3") {
        ClockFormat::WeekdayShort
    } else {
        ClockFormat::WeekdayName
    }
}

/// The format of the time line for a format code.
fn time_format_of(code: &str) -> (r: ClockFormat)
    ensures
        r == time_format(code@),
{
    if str_eq(code, "2") {
        ClockFormat::TimeShort
    } else if str_eq(code, "3") {
        ClockFormat::TimeHalfDay
    } else if str_eq(code, "4") {
        ClockFormat::TimeHalfDayShort
    } else {
        ClockFormat::Time
    }
}

/// Adds the line of a field that is displayed.
fn push_line(lines: &mut Vec<ClockLine>, field: &ClockField, format: ClockFormat, now: &WallClock)
    requires
        now.valid(),
    ensures
        line_views(final(lines)@) == line_views(old(lines)@) + field_line(
            Some(*field),
            format,
            *now,
        ),
{
    let ghost before = lines@;
    if field.display {
        let line = ClockLine {
            text: now.format(format),
            color: parse_color(field.color.as_str()),
        };
        lines.push(line);
        assert(line_views(lines@) =~= line_views(before) + seq![line@]);
    } else {
        assert(line_views(lines@) =~= line_views(before) + Seq::<ClockLineView>::empty());
    }
}

/// The lines that a clock shows at a moment, from top to bottom.
pub fn render_clock(clock: &ClockContent, now: &WallClock) -> (lines: Vec<ClockLine>)
    requires
        now.valid(),
    ensures
        line_views(lines@) == clock_lines(*clock, *now),
{
    let mut lines: Vec<ClockLine> = Vec::new();
    assert(line_views(lines@) =~= Seq::<ClockLineView>::empty());
    let ghost none = Seq::<ClockLineView>::empty();
    match &clock.date {
        Some(field) => {
            push_line(&mut lines, field, date_format_of(field.format.as_str()), now);
        },
        None => {},
    }
    let ghost date = field_line(clock.date, date_format(code_of(clock.date)), *now);
    assert(line_views(lines@) =~= date);
    match &clock.week {
        Some(field) => {
            push_line(&mut lines, field, week_format_of(field.format.as_str()), now);
        },
        None => {},
    }
    let ghost week = field_line(clock.week, week_format(code_of(clock.week)), *now);
    assert(line_views(lines@) =~= date + week);
    match &clock.time {
        Some(field) => {
            push_line(&mut lines, field, time_format_of(field.format.as_str()), now);
        },
        None => {},
    }
    let ghost time = field_line(clock.time, time_format(code_of(clock.time)), *now);
    assert(line_views(lines@) =~= date + week + time);
    if lines.len() == 0 {
        let line = ClockLine { text: now.format(ClockFormat::Time), color: (255, 255, 255) };
        lines.push(line);
        assert(line_views(lines@) =~= seq![line@]);
    }
    lines
}

} // verus!
