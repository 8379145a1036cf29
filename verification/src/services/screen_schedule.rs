//! The screen power schedule: when the display is on.

use crate::services::clock::ClockFormat;
use crate::services::clock::WallClock;
use crate::text::bytes_before;
use crate::text::contains_bytes;
use crate::text::find;
use crate::text::lex_le;
use crate::text::lex_lt;
use vstd::prelude::*;
use vstd::string::*;
use vstd::utf8::*;

verus! {

/// The seconds between two looks at the schedules.
pub const CHECK_INTERVAL_SECS: u64 = 30;

/// One entry of the screen schedule.
#[derive(Debug, Clone)]
pub struct ScreenScheduleEntry {
    /// Time to turn on (`HH:MM:SS`).
    pub on_time: String,
    /// Time to turn off (`HH:MM:SS`).
    pub off_time: String,
    /// The days of the week on which the entry holds, by their short names
    /// (`Mon,Tue,...`). An entry holds on the days that it lists and on no
    /// others.
    pub days: String,
}

/// An entry of the screen schedule with its texts as character sequences.
pub struct ScheduleEntryView {
    pub on_time: Seq<char>,
    pub off_time: Seq<char>,
    pub days: Seq<char>,
}

impl View for ScreenScheduleEntry {
    type V = ScheduleEntryView;

    open spec fn view(&self) -> ScheduleEntryView {
        ScheduleEntryView { on_time: self.on_time@, off_time: self.off_time@, days: self.days@ }
    }
}

/// The entries of a schedule with their texts as character sequences.
pub open spec fn entry_views(entries: Seq<ScreenScheduleEntry>) -> Seq<ScheduleEntryView> {
    Seq::new(entries.len(), |i: int| entries[i]@)
}

/// The screen schedule and the state it last asked for.
pub struct ScreenScheduleService {
    entries: Vec<ScreenScheduleEntry>,
    last_state: Option<bool>,
}

/// Whether an entry asks for the screen to be on at a time of day
/// (`HH:MM:SS`) of a day of the week (short name): the name of the day is
/// found in the days that the entry lists, and the time is at or after the
/// time to turn on and before the time to turn off.
pub open spec fn entry_covers(e: ScreenScheduleEntry, time: Seq<char>, day: Seq<char>) -> bool {
    &&& find(encode_utf8(e.days@), encode_utf8(day)) is Some
    &&& lex_le(encode_utf8(e.on_time@), encode_utf8(time))
    &&& lex_lt(encode_utf8(time), encode_utf8(e.off_time@))
}

/// Whether some entry asks for the screen to be on.
pub open spec fn any_covers(
    entries: Seq<ScreenScheduleEntry>,
    time: Seq<char>,
    day: Seq<char>,
) -> bool {
    exists|i: int| 0 <= i < entries.len() && entry_covers(#[trigger] entries[i], time, day)
}

/// What the schedule asks for: nothing when it is empty, else whether some
/// entry covers the moment.
pub open spec fn schedule_asks(
    entries: Seq<ScreenScheduleEntry>,
    time: Seq<char>,
    day: Seq<char>,
) -> Option<bool> {
    if entries.len() == 0 {
        None
    } else {
        Some(any_covers(entries, time, day))
    }
}

/// Whether an entry asks for the screen to be on at a moment.
pub fn covers(entry: &ScreenScheduleEntry, time: &str, day: &str) -> (r: bool)
    ensures
        r == entry_covers(*entry, time@, day@),
{
    if !contains_bytes(entry.days.as_str().as_bytes(), day.as_bytes()) {
        return false;
    }
    let now = time.as_bytes();
    !bytes_before(now, entry.on_time.as_str().as_bytes()) && bytes_before(
        now,
        entry.off_time.as_str().as_bytes(),
    )
}

impl ScreenScheduleService {
    /// The entries of the schedule.
    pub closed spec fn entries(&self) -> Seq<ScreenScheduleEntry> {
        self.entries@
    }

    /// The state that was last asked of the player, if any was.
    pub closed spec fn last_state(&self) -> Option<bool> {
        self.last_state
    }

    /// An empty schedule.
    pub fn new() -> (s: ScreenScheduleService)
        ensures
            s.entries() == Seq::<ScreenScheduleEntry>::empty(),
            s.last_state() is None,
    {
        ScreenScheduleService { entries: Vec::new(), last_state: None }
    }

    /// Replaces the schedule and forgets the state last asked for.
    pub fn set_schedule(&mut self, entries: Vec<ScreenScheduleEntry>)
        ensures
            final(self).entries() == entries@,
            final(self).last_state() is None,
    {
        self.entries = entries;
        self.last_state = None;
    }

    pub fn get_schedule(&self) -> (r: &[ScreenScheduleEntry])
        ensures
            r@ == self.entries(),
    {
        self.entries.as_slice()
    }

    /// Whether the screen should be on at a time of day (`HH:MM:SS`) of a
    /// day of the week (short name). An empty schedule asks for nothing.
    pub fn should_be_on_at(&self, time: &str, day: &str) -> (r: Option<bool>)
        ensures
            r == schedule_asks(self.entries(), time@, day@),
    {
        let n: usize = self.entries.len();
        if n == 0 {
            return None;
        }
        let mut i: usize = 0;
        while i < n
            invariant
                i <= n,
                n == self.entries@.len(),
                forall|j: int| 0 <= j < i ==> !entry_covers(#[trigger] self.entries@[j], time@, day@),
            decreases n - i,
        {
            if covers(&self.entries[i], time, day) {
                return Some(true);
            }
            i += 1;
        }
        Some(false)
    }

    /// Whether the screen should be on right now, by the local clock.
    pub fn should_be_on(&self) -> (r: Option<bool>)
        ensures
            exists|now: WallClock|
                now.valid() && r == #[trigger] schedule_asks(
                    self.entries(),
                    now.text(ClockFormat::Time),
                    now.text(ClockFormat::WeekdayShort),
                ),
    {
        let now = WallClock::now();
        let time = now.format(ClockFormat::Time);
        let day = now.format(ClockFormat::WeekdayShort);
        let ghost entries = self.entries();
        let r = self.should_be_on_at(time.as_str(), day.as_str());
        assert(r == schedule_asks(
            entries,
            now.text(ClockFormat::Time),
            now.text(ClockFormat::WeekdayShort),
        ));
        r
    }

    /// Takes note of what the schedule asks for. The player is to be told
    /// only when that differs from what it was last told.
    pub fn note(&mut self, on: bool) -> (tell: bool)
        ensures
            tell == (old(self).last_state() != Some(on)),
            final(self).last_state() == Some(on),
            final(self).entries() == old(self).entries(),
    {
        let tell = match self.last_state {
            Some(last) => last != on,
            None => true,
        };
        self.last_state = Some(on);
        tell
    }
}

} // verus!
