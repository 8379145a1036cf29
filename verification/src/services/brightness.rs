//! Brightness: the current level, its schedule over the day and the
//! software dimming of pixel data.

use crate::services::clock::WallClock;
use vstd::prelude::*;

verus! {

/// The brightest level.
pub const FULL_BRIGHTNESS: u8 = 100;

/// One entry of the brightness schedule: from this time of day on, this level.
#[derive(Debug, Clone, Copy, PartialEq, Eq, Structural)]
pub struct BrightnessScheduleEntry {
    pub hour: u8,
    pub minute: u8,
    /// The level, 0 to 100.
    pub level: u8,
}

/// The brightness of the display and its schedule.
pub struct BrightnessService {
    current_level: u8,
    schedule: Vec<BrightnessScheduleEntry>,
}

/// A level brought into the range of 0 to 100.
pub open spec fn clamp_level(level: u8) -> u8 {
    if level > 100 {
        100
    } else {
        level
    }
}

/// The time of day of an entry, in minutes since midnight.
pub open spec fn entry_minutes(e: BrightnessScheduleEntry) -> int {
    e.hour * 60 + e.minute
}

/// Whether an entry is due at a time of day: its time is not after it.
pub open spec fn is_due(e: BrightnessScheduleEntry, minutes: int) -> bool {
    entry_minutes(e) <= minutes
}

/// The entry that is in force at a time of day: among the entries that are
/// due, the one with the latest time of day, and of several with that time
/// the one that comes last in the schedule. None where no entry is due.
pub open spec fn latest_due(schedule: Seq<BrightnessScheduleEntry>, minutes: int) -> Option<
    BrightnessScheduleEntry,
>
    decreases schedule.len(),
{
    if schedule.len() == 0 {
        None
    } else {
        let e = schedule.last();
        match latest_due(schedule.drop_last(), minutes) {
            Some(earlier) => if is_due(e, minutes) && entry_minutes(earlier) <= entry_minutes(e) {
                Some(e)
            } else {
                Some(earlier)
            },
            None => if is_due(e, minutes) {
                Some(e)
            } else {
                None
            },
        }
    }
}

/// The entry in force is one of the schedule that is due, and no entry that
/// is due has a later time of day. Where none is in force, none is due.
pub proof fn lemma_latest_due_is_latest(schedule: Seq<BrightnessScheduleEntry>, minutes: int)
    ensures
        match latest_due(schedule, minutes) {
            Some(e) => is_due(e, minutes) && schedule.contains(e) && forall|j: int|
                0 <= j < schedule.len() && is_due(#[trigger] schedule[j], minutes)
                    ==> entry_minutes(schedule[j]) <= entry_minutes(e),
            None => forall|j: int|
                0 <= j < schedule.len() ==> !is_due(#[trigger] schedule[j], minutes),
        },
    decreases schedule.len(),
{
    if schedule.len() > 0 {
        let front = schedule.drop_last();
        lemma_latest_due_is_latest(front, minutes);
        assert forall|j: int| 0 <= j < front.len() implies front[j] == schedule[j] by {}
        match latest_due(schedule, minutes) {
            Some(e) => {
                if e == schedule.last() {
                    assert(schedule[schedule.len() - 1] == e);
                } else {
                    let k = choose|k: int| 0 <= k < front.len() && front[k] == e;
                    assert(schedule[k] == e);
                }
                assert forall|j: int|
                    0 <= j < schedule.len() && is_due(
                        #[trigger] schedule[j],
                        minutes,
                    ) implies entry_minutes(schedule[j]) <= entry_minutes(e) by {
                    if j < front.len() {
                        assert(front[j] == schedule[j]);
                    }
                }
            },
            None => {
                assert forall|j: int| 0 <= j < schedule.len() implies !is_due(
                    #[trigger] schedule[j],
                    minutes,
                ) by {
                    if j < front.len() {
                        assert(front[j] == schedule[j]);
                    }
                }
            },
        }
    }
}

/// The level that the schedule sets at a time of day: that of the entry in
/// force, or, when none is due yet, that of the last entry of the schedule,
/// which still holds from the day before. A level above 100 counts as 100.
/// An empty schedule sets none.
pub open spec fn scheduled_level(schedule: Seq<BrightnessScheduleEntry>, minutes: int) -> Option<
    u8,
> {
    if schedule.len() == 0 {
        None
    } else {
        match latest_due(schedule, minutes) {
            Some(e) => Some(clamp_level(e.level)),
            None => Some(clamp_level(schedule.last().level)),
        }
    }
}

/// A colour byte dimmed to `level` hundredths.
pub open spec fn dim_byte(value: u8, level: u8) -> u8 {
    ((value as int * level as int) / 100) as u8
}

/// Pixel data dimmed to `level`: below full brightness, the red, green and
/// blue byte of every whole pixel is multiplied by `level / 100`; alpha and
/// a trailing partial pixel stay.
pub open spec fn dimmed(data: Seq<u8>, level: u8) -> Seq<u8> {
    Seq::new(
        data.len(),
        |i: int|
            if level < 100 && i % 4 != 3 && i < data.len() - data.len() % 4 {
                dim_byte(data[i], level)
            } else {
                data[i]
            },
    )
}

/// Dims pixel data in RGBA order to `level` hundredths.
pub fn dim_pixels(data: &mut [u8], level: u8)
    ensures
        final(data)@ == dimmed(old(data)@, level),
{
    if level >= 100 {
        assert(data@ =~= dimmed(data@, level));
        return ;
    }
    let n: usize = data.len();
    let whole: usize = n - n % 4;
    let mut i: usize = 0;
    while i < whole
        invariant
            i <= whole,
            whole == n - n % 4,
            i % 4 == 0,
            level < 100,
            data@.len() == n,
            old(data)@.len() == n,
            forall|j: int| 0 <= j < i ==> data@[j] == dimmed(old(data)@, level)[j],
            forall|j: int| i <= j < n ==> data@[j] == old(data)@[j],
        decreases whole - i,
    {
        let mut k: usize = 0;
        while k < 3
            invariant
                k <= 3,
                i + 4 <= whole,
                whole == n - n % 4,
                i % 4 == 0,
                level < 100,
                data@.len() == n,
                old(data)@.len() == n,
                forall|j: int| 0 <= j < i + k ==> data@[j] == dimmed(old(data)@, level)[j],
                forall|j: int| i + k <= j < n ==> data@[j] == old(data)@[j],
            decreases 3 - k,
        {
            let c: u32 = data[i + k] as u32;
            let l: u32 = level as u32;
            assert(c * l <= 25500 && (c * l) / 100 <= 255) by (nonlinear_arith)
                requires
                    c <= 255,
                    l < 100,
            ;
            let v: u32 = c * l / 100;
            data[i + k] = v as u8;
            k += 1;
        }
        i += 4;
    }
    assert(data@ =~= dimmed(old(data)@, level));
}

impl BrightnessService {
    /// The level is never above full brightness.
    #[verifier::type_invariant]
    closed spec fn level_in_range(&self) -> bool {
        self.current_level <= 100
    }

    /// The current level.
    pub closed spec fn level(&self) -> u8 {
        self.current_level
    }

    /// The schedule.
    pub closed spec fn entries(&self) -> Seq<BrightnessScheduleEntry> {
        self.schedule@
    }

    /// Full brightness and no schedule.
    pub fn new() -> (s: BrightnessService)
        ensures
            s.level() == 100,
            s.entries() == Seq::<BrightnessScheduleEntry>::empty(),
    {
        BrightnessService { current_level: 100, schedule: Vec::new() }
    }

    pub fn get_level(&self) -> (r: u8)
        ensures
            r == self.level(),
            r <= 100,
    {
        proof {
            use_type_invariant(self);
        }
        self.current_level
    }

    /// Sets the level; a level above 100 becomes 100.
    pub fn set_level(&mut self, level: u8)
        ensures
            final(self).level() == clamp_level(level),
            final(self).entries() == old(self).entries(),
    {
        self.current_level = if level > 100 {
            100
        } else {
            level
        };
    }

    pub fn set_schedule(&mut self, schedule: Vec<BrightnessScheduleEntry>)
        ensures
            final(self).entries() == schedule@,
            final(self).level() == old(self).level(),
    {
        proof {
            use_type_invariant(&*self);
        }
        self.schedule = schedule;
    }

    pub fn get_schedule(&self) -> (r: &[BrightnessScheduleEntry])
        ensures
            r@ == self.entries(),
    {
        self.schedule.as_slice()
    }

    /// Applies the schedule at a time of day, given in minutes since
    /// midnight: the level becomes that of the entry with the latest time
    /// of day that is not after it, or that of the last entry of the
    /// schedule where no entry is due yet. An empty schedule changes
    /// nothing.
    pub fn check_schedule_at(&mut self, minutes: u16)
        ensures
            final(self).entries() == old(self).entries(),
            final(self).level() == match scheduled_level(old(self).entries(), minutes as int) {
                Some(level) => level,
                None => old(self).level(),
            },
    {
        proof {
            use_type_invariant(&*self);
        }
        let n: usize = self.schedule.len();
        if n == 0 {
            return ;
        }
        let mut best: Option<BrightnessScheduleEntry> = None;
        let mut i: usize = 0;
        while i < n
            invariant
                i <= n,
                n == self.schedule@.len(),
                self.schedule@ == old(self).schedule@,
                self.current_level == old(self).current_level,
                self.current_level <= 100,
                best == latest_due(self.schedule@.subrange(0, i as int), minutes as int),
            decreases n - i,
        {
            let entry = self.schedule[i];
            assert(self.schedule@.subrange(0, i + 1).drop_last() =~= self.schedule@.subrange(
                0,
                i as int,
            ));
            let at: u16 = entry.hour as u16 * 60 + entry.minute as u16;
            if at <= minutes {
                best = match best {
                    Some(earlier) => if earlier.hour as u16 * 60 + earlier.minute as u16 <= at {
                        Some(entry)
                    } else {
                        Some(earlier)
                    },
                    None => Some(entry),
                };
            }
            i += 1;
        }
        assert(self.schedule@.subrange(0, n as int) =~= self.schedule@);
        let level: u8 = match best {
            Some(entry) => entry.level,
            None => self.schedule[n - 1].level,
        };
        self.current_level = if level > 100 {
            100
        } else {
            level
        };
    }

    /// Applies the schedule at the local time of day.
    pub fn check_schedule(&mut self)
        ensures
            final(self).entries() == old(self).entries(),
            old(self).entries().len() == 0 ==> final(self).level() == old(self).level(),
            old(self).entries().len() > 0 ==> exists|minutes: int|
                0 <= minutes < 1440 && Some(final(self).level()) == #[trigger] scheduled_level(
                    old(self).entries(),
                    minutes,
                ),
    {
        let now = WallClock::now();
        let minutes = now.minutes();
        self.check_schedule_at(minutes);
    }

    /// Applies the level as a multiplier to pixel data in RGBA order.
    pub fn apply_to_pixels(&self, data: &mut [u8])
        ensures
            final(data)@ == dimmed(old(data)@, self.level()),
    {
        dim_pixels(data, self.current_level);
    }
}

} // verus!
