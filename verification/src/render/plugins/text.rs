//! Text content: what is shown, in which colour, and where it starts.

use crate::program::model::color_of;
use crate::program::model::parse_color;
use crate::program::model::TextContent;
use crate::text::str_eq;
use vstd::prelude::*;
use vstd::string::*;
use vstd::utf8::*;

verus! {

/// The speed of a scrolling line, in pixels per second.
pub const SCROLL_PX_PER_SEC: u64 = 50;

/// The colour of text that states none: red.
pub open spec fn fallback_color() -> (u8, u8, u8) {
    (255u8, 0u8, 0u8)
}

/// The text that an item shows: its string, where it has one that is not
/// empty.
pub open spec fn shown_text(text: TextContent) -> Option<Seq<char>> {
    match text.string {
        Some(s) => if s@.len() == 0 {
            None
        } else {
            Some(s@)
        },
        None => None,
    }
}

/// The colour of an item's text: that of its font, red without a font.
pub open spec fn color_for(text: TextContent) -> (u8, u8, u8) {
    match text.font {
        Some(font) => color_of(encode_utf8(font.color@)),
        None => fallback_color(),
    }
}

/// Where something of a given extent starts in a room of a given extent
/// when it is put at the start, at the end or in the middle. What does not
/// fit starts at the start.
pub open spec fn aligned(at_start: bool, at_end: bool, room: u32, extent: i32) -> int {
    if at_start || room - extent < 0 {
        0
    } else if at_end {
        room - extent
    } else {
        (room - extent) / 2
    }
}

/// Where the text starts horizontally: aligned left, right or, by default,
/// in the centre.
pub open spec fn offset_x(text: TextContent, width: u32, text_width: i32) -> int {
    match text.style {
        Some(style) => aligned(
            style.align@ == "left"@,
            style.align@ == "right"@,
            width,
            text_width,
        ),
        None => aligned(false, false, width, text_width),
    }
}

/// Where the text starts vertically: aligned to the top, the bottom or, by
/// default, in the middle.
pub open spec fn offset_y(text: TextContent, height: u32, line_height: i32) -> int {
    match text.style {
        Some(style) => aligned(
            style.valign@ == "top"@,
            style.valign@ == "bottom"@,
            height,
            line_height,
        ),
        None => aligned(false, false, height, line_height),
    }
}

/// Whether the text scrolls: it is a single line wider than its area.
pub open spec fn scrolls(text: TextContent, width: u32, text_width: i32) -> bool {
    text.single_line && text_width > width
}

/// Where a scrolling line starts at a time. It moves left at 50 pixels per
/// second from the right edge of the area until it has left the area, and
/// then starts again: one round takes `(text_width + width) / 50` seconds.
pub open spec fn scroll_x(width: u32, text_width: i32, elapsed_ms: u64) -> int {
    let period_ms = (text_width + width) * 1000 / 50;
    width - (elapsed_ms as int % period_ms) * 50 / 1000
}

/// Where the text starts at a time: the horizontal and the vertical offset
/// of its top left corner in the area.
pub open spec fn origin(
    text: TextContent,
    width: u32,
    height: u32,
    text_width: i32,
    line_height: i32,
    elapsed_ms: u64,
) -> (int, int) {
    (
        if scrolls(text, width, text_width) {
            scroll_x(width, text_width, elapsed_ms)
        } else {
            offset_x(text, width, text_width)
        },
        offset_y(text, height, line_height),
    )
}

/// The text that an item shows, if any.
pub fn text_to_show(text: &TextContent) -> (r: Option<&str>)
    ensures
        match shown_text(*text) {
            Some(s) => r matches Some(t) && t@ == s,
            None => r is None,
        },
{
    match &text.string {
        Some(s) => if s.as_str().is_empty() {
            None
        } else {
            Some(s.as_str())
        },
        None => None,
    }
}

/// The colour of an item's text.
pub fn text_color(text: &TextContent) -> (r: (u8, u8, u8))
    ensures
        r == color_for(*text),
{
    match &text.font {
        Some(font) => parse_color(font.color.as_str()),
        None => (255, 0, 0),
    }
}

/// Where something starts in a room when it is put at the start, at the
/// end or in the middle.
fn align(at_start: bool, at_end: bool, room: u32, extent: i32) -> (r: i64)
    ensures
        r == aligned(at_start, at_end, room, extent),
{
    let free: i64 = room as i64 - extent as i64;
    if at_start || free < 0 {
        0
    } else if at_end {
        free
    } else {
        free / 2
    }
}

/// Where the text of an item starts at a time, given the width of the laid
/// out text and the height of a line: the offsets of its top left corner in
/// an area of the given size.
pub fn render_text_content(
    text: &TextContent,
    width: u32,
    height: u32,
    text_width: i32,
    line_height: i32,
    elapsed_ms: u64,
) -> (r: (i64, i64))
    ensures
        r.0 == origin(*text, width, height, text_width, line_height, elapsed_ms).0,
        r.1 == origin(*text, width, height, text_width, line_height, elapsed_ms).1,
{
    let (left, right, top, bottom) = match &text.style {
        Some(style) => (
            str_eq(style.align.as_str(), "left"),
            str_eq(style.align.as_str(), "right"),
            str_eq(style.valign.as_str(), "top"),
            str_eq(style.valign.as_str(), "bottom"),
        ),
        None => (false, false, false, false),
    };
    let y: i64 = align(top, bottom, height, line_height);
    let x: i64 = if text.single_line && text_width as i64 > width as i64 {
        let total: u64 = (text_width as i64 + width as i64) as u64;
        let period_ms: u64 = total * 1000 / 50;
        let progress: u64 = elapsed_ms % period_ms;
        width as i64 - (progress * 50 / 1000) as i64
    } else {
        align(left, right, width, text_width)
    };
    (x, y)
}

} // verus!
