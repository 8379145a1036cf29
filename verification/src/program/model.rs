//! The data model of a program: screen, programs, areas and the content
//! items that play inside them.

use crate::text::hex_digit;
use crate::text::hex_value;
use vstd::prelude::*;
use vstd::string::*;

verus! {

/// Root element: a screen contains the programs to play, in order.
#[derive(Debug, Clone)]
pub struct Screen {
    pub timestamps: String,
    pub programs: Vec<Program>,
}

/// One complete display composition.
#[derive(Debug, Clone)]
pub struct Program {
    pub guid: String,
    pub name: String,
    pub program_type: String,
    pub flag: String,
    pub border: Option<Border>,
    pub background_music: Option<BackgroundMusic>,
    pub play_control: Option<PlayControl>,
    pub areas: Vec<Area>,
}

/// Border effect around the display or an area.
#[derive(Debug, Clone)]
pub struct Border {
    pub index: u32,
    pub effect: String,
    pub speed: String,
}

/// Background music track list.
#[derive(Debug, Clone)]
pub struct BackgroundMusic {
    pub files: Vec<FileRef>,
}

/// A reference to a stored file by its name.
#[derive(Debug, Clone)]
pub struct FileRef {
    pub name: String,
}

/// Playback scheduling control of a program.
#[derive(Debug, Clone)]
pub struct PlayControl {
    /// How long the program plays, as `HH:MM:SS`.
    pub duration: String,
    pub count: u32,
    pub disabled: bool,
    pub date: Option<DateRange>,
    pub time: Option<TimeRange>,
    pub week: Option<WeekFilter>,
}

#[derive(Debug, Clone)]
pub struct DateRange {
    pub start: String,
    pub end: String,
}

#[derive(Debug, Clone)]
pub struct TimeRange {
    pub start: String,
    pub end: String,
}

#[derive(Debug, Clone)]
pub struct WeekFilter {
    pub enable: String,
}

/// A rectangular zone of the display with its own playlist.
#[derive(Debug, Clone)]
pub struct Area {
    pub guid: String,
    pub name: String,
    /// Opacity of the area, 255 being opaque.
    pub alpha: u8,
    pub rectangle: Rectangle,
    pub border: Option<Border>,
    pub resources: Resources,
}

/// Position and size of an area, relative to the display.
#[derive(Debug, Clone, Copy, PartialEq, Eq, Structural)]
pub struct Rectangle {
    pub x: i32,
    pub y: i32,
    pub width: u32,
    pub height: u32,
}

/// The content items of an area, in playing order.
#[derive(Debug, Clone)]
pub struct Resources {
    pub items: Vec<ContentItem>,
}

/// A content item: the thing displayed in an area.
#[derive(Debug, Clone)]
pub enum ContentItem {
    Image(ImageContent),
    Video(VideoContent),
    Text(TextContent),
    Clock(ClockContent),
    Gif(GifContent),
}

/// Entrance and exit animation of a content item.
#[derive(Debug, Clone, Copy, PartialEq, Eq, Structural)]
pub struct Effect {
    /// Effect code for the entrance (0 to 29).
    pub effect_in: u8,
    /// Effect code for the exit (0 to 29).
    pub effect_out: u8,
    /// Entrance speed (0 is instant, 8 the slowest).
    pub in_speed: u8,
    /// Exit speed (0 is instant, 8 the slowest).
    pub out_speed: u8,
    /// Display duration in tenths of a second.
    pub duration: u32,
}

impl Default for Effect {
    fn default() -> (r: Effect)
        ensures
            r == (Effect { effect_in: 0, effect_out: 0, in_speed: 0, out_speed: 0, duration: 0 }),
    {
        Effect { effect_in: 0, effect_out: 0, in_speed: 0, out_speed: 0, duration: 0 }
    }
}

/// The thirty named effect codes.
#[derive(Debug, Clone, Copy, PartialEq, Eq, Structural)]
pub enum EffectType {
    ImmediateShow,
    LeftParallelMove,
    RightParallelMove,
    UpParallelMove,
    DownParallelMove,
    LeftCover,
    RightCover,
    UpCover,
    DownCover,
    LeftUpCover,
    RightUpCover,
    LeftDownCover,
    RightDownCover,
    HorizontalDivide,
    VerticalDivide,
    HorizontalClose,
    VerticalClose,
    Fade,
    HorizontalShutter,
    VerticalShutter,
    NotClearArea,
    LeftSeriesMove,
    RightSeriesMove,
    UpSeriesMove,
    DownSeriesMove,
    Random,
    HtLeftSeriesMove,
    HtRightSeriesMove,
    HtUpSeriesMove,
    HtDownSeriesMove,
}

impl EffectType {
    /// The code that stands for this effect on the wire.
    pub open spec fn spec_code(self) -> u8 {
        match self {
            EffectType::ImmediateShow => 0,
            EffectType::LeftParallelMove => 1,
            EffectType::RightParallelMove => 2,
            EffectType::UpParallelMove => 3,
            EffectType::DownParallelMove => 4,
            EffectType::LeftCover => 5,
            EffectType::RightCover => 6,
            EffectType::UpCover => 7,
            EffectType::DownCover => 8,
            EffectType::LeftUpCover => 9,
            EffectType::RightUpCover => 10,
            EffectType::LeftDownCover => 11,
            EffectType::RightDownCover => 12,
            EffectType::HorizontalDivide => 13,
            EffectType::VerticalDivide => 14,
            EffectType::HorizontalClose => 15,
            EffectType::VerticalClose => 16,
            EffectType::Fade => 17,
            EffectType::HorizontalShutter => 18,
            EffectType::VerticalShutter => 19,
            EffectType::NotClearArea => 20,
            EffectType::LeftSeriesMove => 21,
            EffectType::RightSeriesMove => 22,
            EffectType::UpSeriesMove => 23,
            EffectType::DownSeriesMove => 24,
            EffectType::Random => 25,
            EffectType::HtLeftSeriesMove => 26,
            EffectType::HtRightSeriesMove => 27,
            EffectType::HtUpSeriesMove => 28,
            EffectType::HtDownSeriesMove => 29,
        }
    }

    /// The code that stands for this effect on the wire.
    #[verifier::when_used_as_spec(spec_code)]
    pub fn code(self) -> (r: u8)
        ensures
            r == self.spec_code(),
            r <= 29,
    {
        match self {
            EffectType::ImmediateShow => 0,
            EffectType::LeftParallelMove => 1,
            EffectType::RightParallelMove => 2,
            EffectType::UpParallelMove => 3,
            EffectType::DownParallelMove => 4,
            EffectType::LeftCover => 5,
            EffectType::RightCover => 6,
            EffectType::UpCover => 7,
            EffectType::DownCover => 8,
            EffectType::LeftUpCover => 9,
            EffectType::RightUpCover => 10,
            EffectType::LeftDownCover => 11,
            EffectType::RightDownCover => 12,
            EffectType::HorizontalDivide => 13,
            EffectType::VerticalDivide => 14,
            EffectType::HorizontalClose => 15,
            EffectType::VerticalClose => 16,
            EffectType::Fade => 17,
            EffectType::HorizontalShutter => 18,
            EffectType::VerticalShutter => 19,
            EffectType::NotClearArea => 20,
            EffectType::LeftSeriesMove => 21,
            EffectType::RightSeriesMove => 22,
            EffectType::UpSeriesMove => 23,
            EffectType::DownSeriesMove => 24,
            EffectType::Random => 25,
            EffectType::HtLeftSeriesMove => 26,
            EffectType::HtRightSeriesMove => 27,
            EffectType::HtUpSeriesMove => 28,
            EffectType::HtDownSeriesMove => 29,
        }
    }

    /// The effect that a code stands for, where it is one of the thirty.
    pub fn from_code(code: u8) -> (r: Option<EffectType>)
        ensures
            code <= 29 ==> r is Some && r->0.spec_code() == code,
            code > 29 ==> r is None,
    {
        match code {
            0 => Some(EffectType::ImmediateShow),
            1 => Some(EffectType::LeftParallelMove),
            2 => Some(EffectType::RightParallelMove),
            3 => Some(EffectType::UpParallelMove),
            4 => Some(EffectType::DownParallelMove),
            5 => Some(EffectType::LeftCover),
            6 => Some(EffectType::RightCover),
            7 => Some(EffectType::UpCover),
            8 => Some(EffectType::DownCover),
            9 => Some(EffectType::LeftUpCover),
            10 => Some(EffectType::RightUpCover),
            11 => Some(EffectType::LeftDownCover),
            12 => Some(EffectType::RightDownCover),
            13 => Some(EffectType::HorizontalDivide),
            14 => Some(EffectType::VerticalDivide),
            15 => Some(EffectType::HorizontalClose),
            16 => Some(EffectType::VerticalClose),
            17 => Some(EffectType::Fade),
            18 => Some(EffectType::HorizontalShutter),
            19 => Some(EffectType::VerticalShutter),
            20 => Some(EffectType::NotClearArea),
            21 => Some(EffectType::LeftSeriesMove),
            22 => Some(EffectType::RightSeriesMove),
            23 => Some(EffectType::UpSeriesMove),
            24 => Some(EffectType::DownSeriesMove),
            25 => Some(EffectType::Random),
            26 => Some(EffectType::HtLeftSeriesMove),
            27 => Some(EffectType::HtRightSeriesMove),
            28 => Some(EffectType::HtUpSeriesMove),
            29 => Some(EffectType::HtDownSeriesMove),
            _ => None,
        }
    }
}

#[derive(Debug, Clone)]
pub struct ImageContent {
    pub guid: String,
    pub name: String,
    /// One of `stretch`, `fill`, `center`, `fit`.
    pub fit: String,
    pub effect: Option<Effect>,
    pub file: FileRef,
}

#[derive(Debug, Clone)]
pub struct VideoContent {
    pub guid: String,
    pub name: String,
    /// Whether the picture keeps its aspect ratio.
    pub aspect_ratio: bool,
    pub file: FileRef,
}

#[derive(Debug, Clone)]
pub struct TextContent {
    pub guid: String,
    pub name: String,
    /// A single line scrolls horizontally when it is wider than its area.
    pub single_line: bool,
    pub background: String,
    pub effect: Option<Effect>,
    pub style: Option<TextStyle>,
    pub string: Option<String>,
    pub font: Option<FontSpec>,
}

#[derive(Debug, Clone)]
pub struct TextStyle {
    /// One of `left`, `center`, `right`.
    pub align: String,
    /// One of `top`, `middle`, `bottom`.
    pub valign: String,
}

#[derive(Debug, Clone)]
pub struct FontSpec {
    pub name: String,
    /// The size in points, in decimal notation as the program states it.
    pub size: String,
    /// The colour as `#RRGGBB`.
    pub color: String,
    pub bold: bool,
    pub italic: bool,
    pub underline: bool,
}

#[derive(Debug, Clone)]
pub struct ClockContent {
    pub guid: String,
    pub name: String,
    /// One of `digital`, `dial`.
    pub clock_type: String,
    pub timezone: String,
    pub adjust: String,
    pub title: Option<ClockField>,
    pub date: Option<ClockField>,
    pub week: Option<ClockField>,
    pub time: Option<ClockField>,
    pub lunar_calendar: Option<ClockField>,
}

#[derive(Debug, Clone)]
pub struct ClockField {
    pub value: String,
    /// The format code of the field.
    pub format: String,
    pub color: String,
    pub display: bool,
}

#[derive(Debug, Clone)]
pub struct GifContent {
    pub guid: String,
    pub name: String,
    pub effect: Option<Effect>,
    pub file: FileRef,
}

/// The type of a program that states none.
pub fn default_program_type() -> (r: String)
    ensures
        r@ == "normal"@,
{
    "normal".to_owned()
}

/// The opacity of an area that states none: opaque.
pub fn default_alpha() -> (r: u8)
    ensures
        r == 255,
{
    255
}

/// The display duration of an effect that states none: five seconds, in
/// tenths of a second.
pub fn default_duration() -> (r: u32)
    ensures
        r == 50,
{
    50
}

/// The fit mode of an image that states none.
pub fn default_fit() -> (r: String)
    ensures
        r@ == "stretch"@,
{
    "stretch".to_owned()
}

/// The horizontal alignment of a style that states none.
pub fn default_align() -> (r: String)
    ensures
        r@ == "center"@,
{
    "center".to_owned()
}

/// The vertical alignment of a style that states none.
pub fn default_valign() -> (r: String)
    ensures
        r@ == "middle"@,
{
    "middle".to_owned()
}

/// The font family of a font that states none.
pub fn default_font_name() -> (r: String)
    ensures
        r@ == "Arial"@,
{
    "Arial".to_owned()
}

/// The size, in points, of a font that states none.
pub fn default_font_size() -> (r: String)
    ensures
        r@ == "12"@,
{
    "12".to_owned()
}

/// The colour of a font or clock field that states none: red.
pub fn default_color() -> (r: String)
    ensures
        r@ == "#ff0000"@,
{
    "#ff0000".to_owned()
}

/// The type of a clock that states none.
pub fn default_clock_type() -> (r: String)
    ensures
        r@ == "digital"@,
{
    "digital".to_owned()
}

/// Whether a clock field that does not say so is displayed.
pub fn default_display() -> (r: bool)
    ensures
        r,
{
    true
}

/// The effect of an item that carries none: shown at once, for five seconds.
pub open spec fn fallback_effect() -> Effect {
    Effect { effect_in: 0, effect_out: 0, in_speed: 0, out_speed: 0, duration: 50 }
}

impl ContentItem {
    /// The effect that the item carries, if its kind has one and states it.
    pub open spec fn spec_effect(&self) -> Option<Effect> {
        match *self {
            ContentItem::Image(i) => i.effect,
            ContentItem::Text(t) => t.effect,
            ContentItem::Gif(g) => g.effect,
            _ => None,
        }
    }

    /// The effect that the item carries, if its kind has one and states it.
    #[verifier::when_used_as_spec(spec_effect)]
    pub fn effect(&self) -> (r: Option<Effect>)
        ensures
            r == self.spec_effect(),
    {
        match self {
            ContentItem::Image(i) => i.effect,
            ContentItem::Text(t) => t.effect,
            ContentItem::Gif(g) => g.effect,
            _ => None,
        }
    }
}

/// `s` without the `#` signs in front of it.
pub open spec fn strip_hashes(s: Seq<u8>) -> Seq<u8>
    decreases s.len(),
{
    if s.len() > 0 && s[0] == 0x23 {
        strip_hashes(s.drop_first())
    } else {
        s
    }
}

/// The value of two hexadecimal digits.
pub open spec fn hex_pair(hi: u8, lo: u8) -> Option<int> {
    match (hex_value(hi), hex_value(lo)) {
        (Some(h), Some(l)) => Some(h * 16 + l),
        _ => None,
    }
}

/// The colour that `text` writes as `#RRGGBB`; red where it writes none.
pub open spec fn color_of(text: Seq<u8>) -> (u8, u8, u8) {
    let s = strip_hashes(text);
    if s.len() >= 6 {
        match (hex_pair(s[0], s[1]), hex_pair(s[2], s[3]), hex_pair(s[4], s[5])) {
            (Some(r), Some(g), Some(b)) => (r as u8, g as u8, b as u8),
            _ => (255u8, 0u8, 0u8),
        }
    } else {
        (255u8, 0u8, 0u8)
    }
}

/// The value of two hexadecimal digits.
fn hex_byte(hi: u8, lo: u8) -> (r: Option<u8>)
    ensures
        match r {
            Some(v) => hex_pair(hi, lo) == Some(v as int),
            None => hex_pair(hi, lo) is None,
        },
{
    match (hex_digit(hi), hex_digit(lo)) {
        (Some(h), Some(l)) => Some(h * 16 + l),
        _ => None,
    }
}

/// Parses a hex colour string (`#RRGGBB`) to `(r, g, b)`. Text that is not
/// of that form gives red, `(255, 0, 0)`.
pub fn parse_color(color: &str) -> (r: (u8, u8, u8))
    ensures
        r == color_of(color.spec_bytes()),
{
    let bytes = color.as_bytes();
    let n: usize = bytes.len();
    let mut at: usize = 0;
    assert(bytes@.subrange(0, n as int) =~= bytes@);
    while at < n && bytes[at] == 0x23
        invariant
            at <= n,
            n == bytes@.len(),
            strip_hashes(bytes@) == strip_hashes(bytes@.subrange(at as int, n as int)),
        decreases n - at,
    {
        assert(bytes@.subrange(at as int, n as int).drop_first() =~= bytes@.subrange(
            at + 1,
            n as int,
        ));
        at += 1;
    }
    let ghost s = bytes@.subrange(at as int, n as int);
    assert(strip_hashes(s) == s);
    if n - at < 6 {
        return (255, 0, 0);
    }
    assert(s[0] == bytes@[at as int] && s[1] == bytes@[at + 1] && s[2] == bytes@[at + 2]);
    assert(s[3] == bytes@[at + 3] && s[4] == bytes@[at + 4] && s[5] == bytes@[at + 5]);
    let r = hex_byte(bytes[at], bytes[at + 1]);
    let g = hex_byte(bytes[at + 2], bytes[at + 3]);
    let b = hex_byte(bytes[at + 4], bytes[at + 5]);
    match (r, g, b) {
        (Some(r), Some(g), Some(b)) => (r, g, b),
        _ => (255, 0, 0),
    }
}

} // verus!
