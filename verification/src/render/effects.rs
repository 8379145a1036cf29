//! Transition effects: the per-area state machine and what each of the
//! thirty effects draws at a given progress.

use vstd::prelude::*;

verus! {

/// The phase of an item's effect.
#[derive(Debug, Clone, Copy, PartialEq, Eq, Structural)]
pub enum EffectPhase {
    Entering,
    Displaying,
    Exiting,
    Done,
}

/// A share of a whole, as a fraction. A fraction with a zero denominator
/// stands for the whole, and so does one whose numerator exceeds its
/// denominator.
#[derive(Debug, Clone, Copy, PartialEq, Eq, Structural)]
pub struct Progress {
    pub num: u64,
    pub den: u64,
}

/// Effect state of an area's playlist.
#[derive(Debug, Clone, Copy, PartialEq, Eq, Structural)]
pub struct EffectState {
    /// Index of the current item in the area's resource list.
    pub current_index: usize,
    pub phase: EffectPhase,
    /// Progress within the current phase.
    pub progress: Progress,
    /// When the current phase started, in milliseconds.
    pub phase_start_ms: u64,
    /// Duration of the display phase in milliseconds; 0 displays forever.
    pub display_duration_ms: u64,
    /// Entrance effect code.
    pub effect_in: u8,
    /// Exit effect code.
    pub effect_out: u8,
    /// Entrance speed (0 to 8).
    pub in_speed: u8,
    /// Exit speed (0 to 8).
    pub out_speed: u8,
}

/// Nothing of the whole.
pub open spec fn none_done() -> Progress {
    Progress { num: 0, den: 1 }
}

/// All of the whole.
pub open spec fn all_done() -> Progress {
    Progress { num: 1, den: 1 }
}

/// How long a transition of a given speed takes, in milliseconds.
pub open spec fn transition_ms(speed: u8) -> u64 {
    if speed == 0 {
        0
    } else if speed == 1 {
        200
    } else if speed == 2 {
        400
    } else if speed == 3 {
        600
    } else if speed == 4 {
        800
    } else if speed == 5 {
        1000
    } else if speed == 6 {
        1500
    } else if speed == 7 {
        2000
    } else if speed == 8 {
        3000
    } else {
        500
    }
}

/// The time spent in the current phase at time `now`.
pub open spec fn in_phase(s: EffectState, now: u64) -> u64 {
    if now >= s.phase_start_ms {
        (now - s.phase_start_ms) as u64
    } else {
        0
    }
}

/// The share of a transition of `dur` milliseconds that is done after
/// `spent` milliseconds.
pub open spec fn share(spent: u64, dur: u64) -> Progress {
    Progress { num: if spent < dur {
        spent
    } else {
        dur
    }, den: dur }
}

/// The state after an update at time `now`.
pub open spec fn step(s: EffectState, now: u64) -> EffectState {
    match s.phase {
        EffectPhase::Entering => {
            let dur = transition_ms(s.in_speed);
            if dur == 0 || s.effect_in == 0 {
                EffectState {
                    progress: all_done(),
                    phase: EffectPhase::Displaying,
                    phase_start_ms: now,
                    ..s
                }
            } else if in_phase(s, now) >= dur {
                EffectState {
                    progress: share(in_phase(s, now), dur),
                    phase: EffectPhase::Displaying,
                    phase_start_ms: now,
                    ..s
                }
            } else {
                EffectState { progress: share(in_phase(s, now), dur), ..s }
            }
        },
        EffectPhase::Displaying => {
            if s.display_duration_ms != 0 && in_phase(s, now) >= s.display_duration_ms {
                EffectState {
                    progress: none_done(),
                    phase: EffectPhase::Exiting,
                    phase_start_ms: now,
                    ..s
                }
            } else {
                s
            }
        },
        EffectPhase::Exiting => {
            let dur = transition_ms(s.out_speed);
            if dur == 0 || s.effect_out == 0 {
                EffectState { progress: all_done(), phase: EffectPhase::Done, ..s }
            } else if in_phase(s, now) >= dur {
                EffectState {
                    progress: share(in_phase(s, now), dur),
                    phase: EffectPhase::Done,
                    ..s
                }
            } else {
                EffectState { progress: share(in_phase(s, now), dur), ..s }
            }
        },
        EffectPhase::Done => s,
    }
}

/// The place of a phase in the order of phases.
pub open spec fn rank(phase: EffectPhase) -> int {
    match phase {
        EffectPhase::Entering => 0,
        EffectPhase::Displaying => 1,
        EffectPhase::Exiting => 2,
        EffectPhase::Done => 3,
    }
}

/// The state after updates at each of the given times, in order.
pub open spec fn updated(s: EffectState, times: Seq<u64>) -> EffectState
    decreases times.len(),
{
    if times.len() == 0 {
        s
    } else {
        step(updated(s, times.drop_last()), times.last())
    }
}

/// An update never goes back to an earlier phase, and moves on by one phase
/// at most.
pub proof fn lemma_step_moves_forward(s: EffectState, now: u64)
    ensures
        rank(s.phase) <= rank(step(s, now).phase) <= rank(s.phase) + 1,
{
}

/// Monotonicity: over any sequence of updates, whatever the times, the
/// phase after more updates is never an earlier one than the phase after
/// fewer.
pub proof fn lemma_phase_never_goes_back(s: EffectState, times: Seq<u64>, i: int, j: int)
    requires
        0 <= i <= j <= times.len(),
    ensures
        rank(updated(s, times.take(i)).phase) <= rank(updated(s, times.take(j)).phase),
    decreases j - i,
{
    if i < j {
        lemma_phase_never_goes_back(s, times, i, j - 1);
        assert(times.take(j).drop_last() =~= times.take(j - 1));
        lemma_step_moves_forward(updated(s, times.take(j - 1)), times.take(j).last());
    }
}

impl EffectState {
    /// The state of an item that is about to enter. The display duration
    /// is given in tenths of a second.
    pub fn new(effect_in: u8, effect_out: u8, in_speed: u8, out_speed: u8, duration_tenths: u32) -> (s:
        EffectState)
        ensures
            s == (EffectState {
                current_index: 0,
                phase: EffectPhase::Entering,
                progress: none_done(),
                phase_start_ms: 0,
                display_duration_ms: (duration_tenths * 100) as u64,
                effect_in,
                effect_out,
                in_speed,
                out_speed,
            }),
    {
        EffectState {
            current_index: 0,
            phase: EffectPhase::Entering,
            progress: Progress { num: 0, den: 1 },
            phase_start_ms: 0,
            display_duration_ms: duration_tenths as u64 * 100,
            effect_in,
            effect_out,
            in_speed,
            out_speed,
        }
    }

    /// How long a transition of a given speed takes, in milliseconds
    /// (0 is instant, 8 the slowest).
    pub fn transition_duration_ms(speed: u8) -> (r: u64)
        ensures
            r == transition_ms(speed),
    {
        match speed {
            0 => 0,
            1 => 200,
            2 => 400,
            3 => 600,
            4 => 800,
            5 => 1000,
            6 => 1500,
            7 => 2000,
            8 => 3000,
            _ => 500,
        }
    }

    /// Updates the state to the elapsed time. Returns true when the item
    /// is done and the next one is due.
    pub fn update(&mut self, elapsed_ms: u64) -> (advance: bool)
        ensures
            *final(self) == step(*old(self), elapsed_ms),
            advance == (final(self).phase == EffectPhase::Done),
            rank(old(self).phase) <= rank(final(self).phase),
    {
        let spent: u64 = if elapsed_ms >= self.phase_start_ms {
            elapsed_ms - self.phase_start_ms
        } else {
            0
        };
        match self.phase {
            EffectPhase::Entering => {
                let dur = Self::transition_duration_ms(self.in_speed);
                if dur == 0 || self.effect_in == 0 {
                    self.progress = Progress { num: 1, den: 1 };
                    self.phase = EffectPhase::Displaying;
                    self.phase_start_ms = elapsed_ms;
                } else {
                    self.progress = Progress { num: if spent < dur {
                        spent
                    } else {
                        dur
                    }, den: dur };
                    if spent >= dur {
                        self.phase = EffectPhase::Displaying;
                        self.phase_start_ms = elapsed_ms;
                    }
                }
                false
            },
            EffectPhase::Displaying => {
                if self.display_duration_ms != 0 && spent >= self.display_duration_ms {
                    self.phase = EffectPhase::Exiting;
                    self.phase_start_ms = elapsed_ms;
                    self.progress = Progress { num: 0, den: 1 };
                }
                false
            },
            EffectPhase::Exiting => {
                let dur = Self::transition_duration_ms(self.out_speed);
                if dur == 0 || self.effect_out == 0 {
                    self.progress = Progress { num: 1, den: 1 };
                    self.phase = EffectPhase::Done;
                    return true;
                }
                self.progress = Progress { num: if spent < dur {
                    spent
                } else {
                    dur
                }, den: dur };
                if spent >= dur {
                    self.phase = EffectPhase::Done;
                    return true;
                }
                false
            },
            EffectPhase::Done => true,
        }
    }

    /// Starts over for the next item, which enters at `start_ms`.
    pub fn reset(
        &mut self,
        effect_in: u8,
        effect_out: u8,
        in_speed: u8,
        out_speed: u8,
        duration_tenths: u32,
        start_ms: u64,
    )
        ensures
            *final(self) == (EffectState {
                current_index: old(self).current_index,
                phase: EffectPhase::Entering,
                progress: none_done(),
                phase_start_ms: start_ms,
                display_duration_ms: (duration_tenths * 100) as u64,
                effect_in,
                effect_out,
                in_speed,
                out_speed,
            }),
    {
        self.phase = EffectPhase::Entering;
        self.progress = Progress { num: 0, den: 1 };
        self.phase_start_ms = start_ms;
        self.display_duration_ms = duration_tenths as u64 * 100;
        self.effect_in = effect_in;
        self.effect_out = effect_out;
        self.in_speed = in_speed;
        self.out_speed = out_speed;
    }
}

/// A rectangle of the content and where it goes on the target.
#[derive(Debug, Clone, Copy, PartialEq, Eq, Structural)]
pub struct Region {
    pub dst_x: i32,
    pub dst_y: i32,
    pub src_x: i32,
    pub src_y: i32,
    pub width: u32,
    pub height: u32,
}

/// What an effect draws of the content at one moment.
#[derive(Debug, Clone)]
pub enum EffectDraw {
    /// Nothing at all.
    Nothing,
    /// The whole content, moved by an offset.
    Whole { dx: i32, dy: i32 },
    /// The whole content in place, with an opacity.
    Faded { opacity: Progress },
    /// Some rectangles of the content, blended over the target.
    Regions(Vec<Region>),
}

/// What an effect draws, with the rectangles as a sequence.
pub enum DrawPlan {
    Nothing,
    Whole { dx: i32, dy: i32 },
    Faded { opacity: Progress },
    Regions(Seq<Region>),
}

impl View for EffectDraw {
    type V = DrawPlan;

    open spec fn view(&self) -> DrawPlan {
        match *self {
            EffectDraw::Nothing => DrawPlan::Nothing,
            EffectDraw::Whole { dx, dy } => DrawPlan::Whole { dx, dy },
            EffectDraw::Faded { opacity } => DrawPlan::Faded { opacity },
            EffectDraw::Regions(regions) => DrawPlan::Regions(regions@),
        }
    }
}

impl Progress {
    /// The fraction in proper form: the numerator does not exceed the
    /// denominator, which is positive.
    pub open spec fn proper(self) -> Progress {
        if self.den == 0 || self.num > self.den {
            all_done()
        } else {
            self
        }
    }

    /// What is left of the whole.
    pub open spec fn rest(self) -> Progress {
        Progress { num: (self.proper().den - self.proper().num) as u64, den: self.proper().den }
    }

    /// This share of a length, rounded down.
    pub open spec fn of(self, length: u32) -> int {
        (self.proper().num * length) / (self.proper().den as int)
    }

    /// This share of half a length, rounded down.
    pub open spec fn of_half(self, length: u32) -> int {
        (self.proper().num * length) / (2 * self.proper().den)
    }
}

/// The share of the content that an effect shows: the progress while
/// entering, what is left of it while exiting, all of it otherwise.
pub open spec fn shown(progress: Progress, phase: EffectPhase) -> Progress {
    match phase {
        EffectPhase::Entering => progress.proper(),
        EffectPhase::Exiting => progress.rest(),
        _ => all_done(),
    }
}

/// A length as a coordinate, at most the largest one.
pub open spec fn coordinate(v: int) -> i32 {
    if v > i32::MAX {
        i32::MAX
    } else {
        v as i32
    }
}

/// The effect that the random effect picks at a progress: one of the codes
/// 1 to 16.
pub open spec fn random_pick(progress: Progress) -> u8 {
    (((16 * progress.proper().num) / (progress.proper().den as int)) % 16 + 1) as u8
}

/// The offset by which the moving and covering effects (codes 1 to 12) shift
/// the content: the hidden share of the width or height, in the direction
/// of the code.
pub open spec fn shift(code: u8, p: Progress, width: u32, height: u32) -> (i32, i32) {
    let sx = coordinate(p.rest().of(width));
    let sy = coordinate(p.rest().of(height));
    if code == 1 || code == 6 {
        (sx, 0i32)
    } else if code == 2 || code == 5 {
        ((-sx) as i32, 0i32)
    } else if code == 3 || code == 8 {
        (0i32, sy)
    } else if code == 4 || code == 7 {
        (0i32, (-sy) as i32)
    } else if code == 9 {
        ((-sx) as i32, (-sy) as i32)
    } else if code == 10 {
        (sx, (-sy) as i32)
    } else if code == 11 {
        ((-sx) as i32, sy)
    } else {
        (sx, sy)
    }
}

/// One blind of the horizontal shutter.
pub open spec fn blind_row(i: int, width: u32, height: u32, p: Progress) -> Region {
    let blind = (height / 8) as u32;
    let y = coordinate(i * blind);
    Region { dst_x: 0, dst_y: y, src_x: 0, src_y: y, width, height: p.of(blind) as u32 }
}

/// One blind of the vertical shutter.
pub open spec fn blind_column(i: int, width: u32, height: u32, p: Progress) -> Region {
    let blind = (width / 8) as u32;
    let x = coordinate(i * blind);
    Region { dst_x: x, dst_y: 0, src_x: x, src_y: 0, width: p.of(blind) as u32, height }
}

/// What the effect with a code other than the random one draws when the
/// share `p` of the content shows.
pub open spec fn draw_of(code: u8, p: Progress, width: u32, height: u32) -> DrawPlan {
    if 1 <= code <= 12 {
        DrawPlan::Whole { dx: shift(code, p, width, height).0, dy: shift(code, p, width, height).1 }
    } else if code == 13 {
        let half = p.of_half(width);
        let center = (width / 2) as i32;
        DrawPlan::Regions(
            seq![
                Region {
                    dst_x: (center - half) as i32,
                    dst_y: 0,
                    src_x: 0,
                    src_y: 0,
                    width: half as u32,
                    height,
                },
                Region {
                    dst_x: center,
                    dst_y: 0,
                    src_x: center,
                    src_y: 0,
                    width: half as u32,
                    height,
                },
            ],
        )
    } else if code == 14 {
        let half = p.of_half(height);
        let center = (height / 2) as i32;
        DrawPlan::Regions(
            seq![
                Region {
                    dst_x: 0,
                    dst_y: (center - half) as i32,
                    src_x: 0,
                    src_y: 0,
                    width,
                    height: half as u32,
                },
                Region {
                    dst_x: 0,
                    dst_y: center,
                    src_x: 0,
                    src_y: center,
                    width,
                    height: half as u32,
                },
            ],
        )
    } else if code == 15 {
        let edge = p.rest().of_half(width);
        DrawPlan::Regions(
            seq![
                Region {
                    dst_x: edge as i32,
                    dst_y: 0,
                    src_x: edge as i32,
                    src_y: 0,
                    width: (width - 2 * edge) as u32,
                    height,
                },
            ],
        )
    } else if code == 16 {
        let edge = p.rest().of_half(height);
        DrawPlan::Regions(
            seq![
                Region {
                    dst_x: 0,
                    dst_y: edge as i32,
                    src_x: 0,
                    src_y: edge as i32,
                    width,
                    height: (height - 2 * edge) as u32,
                },
            ],
        )
    } else if code == 17 {
        DrawPlan::Faded { opacity: p.proper() }
    } else if code == 18 {
        DrawPlan::Regions(Seq::new(8, |i: int| blind_row(i, width, height, p)))
    } else if code == 19 {
        DrawPlan::Regions(Seq::new(8, |i: int| blind_column(i, width, height, p)))
    } else {
        DrawPlan::Whole { dx: 0, dy: 0 }
    }
}

/// What an effect draws of the content at a progress of a phase, on an area
/// of the given size. Once the item is done nothing is drawn; the random
/// effect draws what the effect it picks draws.
pub open spec fn effect_draw(
    effect_type: u8,
    progress: Progress,
    phase: EffectPhase,
    width: u32,
    height: u32,
) -> DrawPlan {
    if phase == EffectPhase::Done {
        DrawPlan::Nothing
    } else if effect_type == 25 {
        draw_of(random_pick(progress), shown(progress, phase), width, height)
    } else {
        draw_of(effect_type, shown(progress, phase), width, height)
    }
}

/// A share of a length, rounded down.
fn part_of(p: Progress, length: u32) -> (r: u32)
    requires
        p == p.proper(),
    ensures
        r == p.of(length),
        r <= length,
{
    let n: u128 = p.num as u128;
    let d: u128 = p.den as u128;
    let l: u128 = length as u128;
    assert(n * l <= d * l && (n * l) / (d as int) <= l && n * l <= 0xffff_ffff_ffff_ffff
        * 0xffff_ffff) by (nonlinear_arith)
        requires
            n <= d,
            0 < d <= 0xffff_ffff_ffff_ffff,
            0 <= l <= 0xffff_ffff,
    ;
    (n * l / d) as u32
}

/// A share of half a length, rounded down.
fn half_part_of(p: Progress, length: u32) -> (r: u32)
    requires
        p == p.proper(),
    ensures
        r == p.of_half(length),
        2 * r <= length,
{
    let n: u128 = p.num as u128;
    let d: u128 = p.den as u128;
    let l: u128 = length as u128;
    assert(n * l <= d * l && 2 * ((n * l) / (2 * d)) <= l && n * l <= 0xffff_ffff_ffff_ffff
        * 0xffff_ffff) by (nonlinear_arith)
        requires
            n <= d,
            0 < d <= 0xffff_ffff_ffff_ffff,
            0 <= l <= 0xffff_ffff,
    ;
    (n * l / (2 * d)) as u32
}

/// A length as a coordinate, at most the largest one.
fn to_coordinate(v: u32) -> (r: i32)
    ensures
        r == coordinate(v as int),
        r >= 0,
{
    if v > 0x7fff_ffff {
        0x7fff_ffff
    } else {
        v as i32
    }
}

impl Progress {
    /// The fraction in proper form.
    pub fn to_proper(self) -> (r: Progress)
        ensures
            r == self.proper(),
            r == r.proper(),
            r.num <= r.den,
            r.den > 0,
    {
        if self.den == 0 || self.num > self.den {
            Progress { num: 1, den: 1 }
        } else {
            self
        }
    }

    /// What is left of the whole.
    pub fn remaining(self) -> (r: Progress)
        ensures
            r == self.rest(),
            r == r.proper(),
    {
        let p = self.to_proper();
        Progress { num: p.den - p.num, den: p.den }
    }
}

/// The effect that the random effect picks at a progress.
fn pick_random(progress: Progress) -> (code: u8)
    ensures
        code == random_pick(progress),
        1 <= code <= 16,
{
    let p = progress.to_proper();
    let n: u128 = p.num as u128;
    let d: u128 = p.den as u128;
    assert(16 * n <= 16 * d && (16 * n) / (d as int) <= 16) by (nonlinear_arith)
        requires
            n <= d,
            0 < d,
    ;
    ((16 * n / d) % 16 + 1) as u8
}

/// The offset by which a moving or covering effect shifts the content.
fn shift_of(code: u8, p: Progress, width: u32, height: u32) -> (r: (i32, i32))
    requires
        1 <= code <= 12,
        p == p.proper(),
    ensures
        r == shift(code, p, width, height),
{
    let hidden = p.remaining();
    let sx: i32 = to_coordinate(part_of(hidden, width));
    let sy: i32 = to_coordinate(part_of(hidden, height));
    if code == 1 || code == 6 {
        (sx, 0)
    } else if code == 2 || code == 5 {
        (-sx, 0)
    } else if code == 3 || code == 8 {
        (0, sy)
    } else if code == 4 || code == 7 {
        (0, -sy)
    } else if code == 9 {
        (-sx, -sy)
    } else if code == 10 {
        (sx, -sy)
    } else if code == 11 {
        (-sx, sy)
    } else {
        (sx, sy)
    }
}

/// The eight blinds of a shutter.
fn blinds(horizontal: bool, p: Progress, width: u32, height: u32) -> (regions: Vec<Region>)
    requires
        p == p.proper(),
    ensures
        regions@ == Seq::new(
            8,
            |i: int|
                if horizontal {
                    blind_row(i, width, height, p)
                } else {
                    blind_column(i, width, height, p)
                },
        ),
{
    let blind: u32 = if horizontal {
        height / 8
    } else {
        width / 8
    };
    let visible: u32 = part_of(p, blind);
    let mut regions: Vec<Region> = Vec::new();
    let mut i: u32 = 0;
    while i < 8
        invariant
            i <= 8,
            regions@.len() == i,
            blind == (if horizontal {
                height / 8
            } else {
                width / 8
            }),
            visible == p.of(blind),
            forall|j: int|
                0 <= j < i ==> regions@[j] == (if horizontal {
                    blind_row(j, width, height, p)
                } else {
                    blind_column(j, width, height, p)
                }),
        decreases 8 - i,
    {
        assert(i * blind <= 0xffff_ffff) by (nonlinear_arith)
            requires
                i < 8,
                blind <= 0x1fff_ffff,
        ;
        let at: i32 = to_coordinate(i * blind);
        let region = if horizontal {
            Region { dst_x: 0, dst_y: at, src_x: 0, src_y: at, width, height: visible }
        } else {
            Region { dst_x: at, dst_y: 0, src_x: at, src_y: 0, width: visible, height }
        };
        regions.push(region);
        i += 1;
    }
    assert(regions@ =~= Seq::new(
        8,
        |i: int|
            if horizontal {
                blind_row(i, width, height, p)
            } else {
                blind_column(i, width, height, p)
            },
    ));
    regions
}

/// What the effect with a code other than the random one draws.
fn draw_for(code: u8, p: Progress, width: u32, height: u32) -> (draw: EffectDraw)
    requires
        p == p.proper(),
    ensures
        draw@ == draw_of(code, p, width, height),
{
    if 1 <= code && code <= 12 {
        let (dx, dy) = shift_of(code, p, width, height);
        EffectDraw::Whole { dx, dy }
    } else if code == 13 {
        let half: u32 = half_part_of(p, width);
        let center: i32 = (width / 2) as i32;
        let left: i32 = center - half as i32;
        let regions: Vec<Region> = vec![
            Region {
                dst_x: left,
                dst_y: 0,
                src_x: 0,
                src_y: 0,
                width: half,
                height,
            },
            Region { dst_x: center, dst_y: 0, src_x: center, src_y: 0, width: half, height },
        ];
        assert(regions@ =~= draw_of(code, p, width, height)->Regions_0);
        EffectDraw::Regions(regions)
    } else if code == 14 {
        let half: u32 = half_part_of(p, height);
        let center: i32 = (height / 2) as i32;
        let top: i32 = center - half as i32;
        let regions: Vec<Region> = vec![
            Region {
                dst_x: 0,
                dst_y: top,
                src_x: 0,
                src_y: 0,
                width,
                height: half,
            },
            Region { dst_x: 0, dst_y: center, src_x: 0, src_y: center, width, height: half },
        ];
        assert(regions@ =~= draw_of(code, p, width, height)->Regions_0);
        EffectDraw::Regions(regions)
    } else if code == 15 {
        let edge: u32 = half_part_of(p.remaining(), width);
        let open: u32 = width - 2 * edge;
        let regions: Vec<Region> = vec![
            Region {
                dst_x: edge as i32,
                dst_y: 0,
                src_x: edge as i32,
                src_y: 0,
                width: open,
                height,
            },
        ];
        assert(regions@ =~= draw_of(code, p, width, height)->Regions_0);
        EffectDraw::Regions(regions)
    } else if code == 16 {
        let edge: u32 = half_part_of(p.remaining(), height);
        let open: u32 = height - 2 * edge;
        let regions: Vec<Region> = vec![
            Region {
                dst_x: 0,
                dst_y: edge as i32,
                src_x: 0,
                src_y: edge as i32,
                width,
                height: open,
            },
        ];
        assert(regions@ =~= draw_of(code, p, width, height)->Regions_0);
        EffectDraw::Regions(regions)
    } else if code == 17 {
        EffectDraw::Faded { opacity: p }
    } else if code == 18 {
        let regions = blinds(true, p, width, height);
        assert(regions@ =~= draw_of(code, p, width, height)->Regions_0);
        EffectDraw::Regions(regions)
    } else if code == 19 {
        let regions = blinds(false, p, width, height);
        assert(regions@ =~= draw_of(code, p, width, height)->Regions_0);
        EffectDraw::Regions(regions)
    } else {
        EffectDraw::Whole { dx: 0, dy: 0 }
    }
}

/// Says what a transition effect draws of an item's content onto its area:
/// the whole at an offset, the whole with an opacity, or some rectangles.
pub fn apply_effect(
    effect_type: u8,
    progress: Progress,
    phase: EffectPhase,
    width: u32,
    height: u32,
) -> (draw: EffectDraw)
    ensures
        draw@ == effect_draw(effect_type, progress, phase, width, height),
{
    let p = match phase {
        EffectPhase::Entering => progress.to_proper(),
        EffectPhase::Exiting => progress.remaining(),
        EffectPhase::Displaying => Progress { num: 1, den: 1 },
        EffectPhase::Done => { return EffectDraw::Nothing; },
    };
    let code: u8 = if effect_type == 25 {
        pick_random(progress)
    } else {
        effect_type
    };
    draw_for(code, p, width, height)
}

/// A colour or alpha value laid over another: the source plus what its
/// alpha leaves of the destination, at most 255. The source is taken as
/// multiplied by its alpha already.
pub open spec fn over(src: u8, dst: u8, alpha: u8) -> u8 {
    let v = src + (dst * (255 - alpha)) / 255;
    if v > 255 {
        255u8
    } else {
        v as u8
    }
}

/// The column of the pixel that holds byte `i` of a picture.
pub open spec fn column_of(i: int, width: int) -> int {
    (i / 4) % width
}

/// The row of the pixel that holds byte `i` of a picture.
pub open spec fn row_of(i: int, width: int) -> int {
    (i / 4) / width
}

/// Where the first byte of a pixel lies in a picture.
pub open spec fn offset_of(x: int, y: int, width: int) -> int {
    (y * width + x) * 4
}

/// The pixel of the content that a region puts on a pixel of the target,
/// if it puts one there.
pub open spec fn source_of(r: Region, content_w: int, content_h: int, x: int, y: int) -> Option<
    (int, int),
> {
    let col = x - r.dst_x;
    let row = y - r.dst_y;
    if 0 <= col < r.width && 0 <= row < r.height && 0 <= r.src_x + col < content_w && 0
        <= r.src_y + row < content_h {
        Some((r.src_x + col, r.src_y + row))
    } else {
        None
    }
}

/// Byte `i` of the target after a region of the content was drawn on it.
pub open spec fn drawn_byte(
    content: Seq<u8>,
    content_w: int,
    content_h: int,
    target: Seq<u8>,
    target_w: int,
    r: Region,
    i: int,
) -> u8 {
    match source_of(r, content_w, content_h, column_of(i, target_w), row_of(i, target_w)) {
        Some((sx, sy)) => {
            let s = offset_of(sx, sy, content_w);
            if content[s + 3] > 0 {
                over(content[s + i % 4], target[i], content[s + 3])
            } else {
                target[i]
            }
        },
        None => target[i],
    }
}

/// The target after a region of the content was drawn on it: where the
/// region puts a pixel of the content that is not fully transparent, the
/// pixel is laid over the target's; everything else stays.
pub open spec fn region_drawn(
    content: Seq<u8>,
    content_w: int,
    content_h: int,
    target: Seq<u8>,
    target_w: int,
    r: Region,
) -> Seq<u8> {
    Seq::new(
        target.len(),
        |i: int| drawn_byte(content, content_w, content_h, target, target_w, r, i),
    )
}

/// Whether the pixel that holds byte `i` has had its turn when the drawing
/// of a region has reached a row and a column of the region.
pub open spec fn had_turn(r: Region, target_w: int, i: int, row: int, col: int) -> bool {
    let rr = row_of(i, target_w) - r.dst_y;
    let cc = column_of(i, target_w) - r.dst_x;
    rr < row || (rr == row && cc < col)
}

/// The bytes of a pixel lie at its offset, and nowhere else; every byte
/// lies in a column of the picture.
proof fn lemma_pixel_bytes(x: int, y: int, width: int, i: int)
    requires
        0 < width,
        0 <= i,
    ensures
        (0 <= x < width && 0 <= y) ==> ((column_of(i, width) == x && row_of(i, width) == y) <==> (
        offset_of(x, y, width) <= i < offset_of(x, y, width) + 4)),
        0 <= column_of(i, width) < width,
        0 <= row_of(i, width),
{
    let p = i / 4;
    assert(p == (p / width) * width + p % width && 0 <= p % width < width && 0 <= p / width)
        by (nonlinear_arith)
        requires
            width > 0,
            p >= 0,
    ;
    if 0 <= x < width && 0 <= y {
        assert((y * width + x) / width == y && (y * width + x) % width == x) by (nonlinear_arith)
            requires
                0 <= x < width,
                0 <= y,
        ;
        if column_of(i, width) == x && row_of(i, width) == y {
            assert(p == y * width + x);
        }
        if offset_of(x, y, width) <= i < offset_of(x, y, width) + 4 {
            assert(p == y * width + x);
        }
    }
}

/// Every byte of a picture lies in a row of the picture.
proof fn lemma_row_in_picture(i: int, width: int, height: int)
    requires
        0 <= i < 4 * width * height,
        0 <= width,
        0 <= height,
    ensures
        0 < width,
        0 <= row_of(i, width) < height,
{
    assert(width > 0 && 4 * width * height == 4 * (width * height)) by (nonlinear_arith)
        requires
            0 <= i < 4 * width * height,
            0 <= width,
    ;
    let p = i / 4;
    assert(0 <= p / width < height) by (nonlinear_arith)
        requires
            0 <= p < width * height,
            width > 0,
    ;
}

/// A pixel inside a picture has its four bytes inside the picture's data.
proof fn lemma_offset_in_picture(x: int, y: int, width: int, height: int)
    requires
        0 <= x < width,
        0 <= y < height,
    ensures
        0 <= y * width <= y * width + x,
        0 <= offset_of(x, y, width),
        offset_of(x, y, width) + 4 <= 4 * width * height,
        offset_of(x, y, width) % 4 == 0,
{
    assert(0 <= y * width && y * width + x < width * height && 4 * width * height == 4 * (width
        * height)) by (nonlinear_arith)
        requires
            0 <= x < width,
            0 <= y < height,
    ;
}

/// Lays one value over another.
fn lay_over(src: u8, dst: u8, alpha: u8) -> (r: u8)
    ensures
        r == over(src, dst, alpha),
{
    let d: u32 = dst as u32;
    let left: u32 = 255 - alpha as u32;
    assert(d * left <= 65025) by (nonlinear_arith)
        requires
            d <= 255,
            left <= 255,
    ;
    let v: u32 = src as u32 + d * left / 255;
    if v > 255 {
        255
    } else {
        v as u8
    }
}

/// Draws a rectangular region of the content onto the target, laying each
/// pixel of the content over the target's. Both pictures are in RGBA order
/// with colours multiplied by alpha; what falls outside of either picture
/// is left out.
pub fn draw_region(
    content: &[u8],
    content_w: u32,
    content_h: u32,
    target: &mut [u8],
    target_w: u32,
    target_h: u32,
    region: Region,
)
    requires
        content@.len() == 4 * content_w * content_h,
        old(target)@.len() == 4 * target_w * target_h,
    ensures
        final(target)@ == region_drawn(
            content@,
            content_w as int,
            content_h as int,
            old(target)@,
            target_w as int,
            region,
        ),
{
    let cw: i64 = content_w as i64;
    let ch: i64 = content_h as i64;
    let tw: i64 = target_w as i64;
    let th: i64 = target_h as i64;
    let content_len: usize = content.len();
    let target_len: usize = target.len();
    let ghost want = region_drawn(
        content@,
        content_w as int,
        content_h as int,
        old(target)@,
        target_w as int,
        region,
    );
    let mut row: u32 = 0;
    while row < region.height
        invariant
            row <= region.height,
            cw == content_w,
            ch == content_h,
            tw == target_w,
            th == target_h,
            content@.len() == 4 * content_w * content_h,
            target@.len() == 4 * target_w * target_h,
            content@.len() == content_len,
            target@.len() == target_len,
            old(target)@.len() == target@.len(),
            want == region_drawn(
                content@,
                content_w as int,
                content_h as int,
                old(target)@,
                target_w as int,
                region,
            ),
            forall|i: int|
                0 <= i < target@.len() ==> #[trigger] target@[i] == (if had_turn(
                    region,
                    target_w as int,
                    i,
                    row as int,
                    0,
                ) {
                    want[i]
                } else {
                    old(target)@[i]
                }),
        decreases region.height - row,
    {
        let sy: i64 = region.src_y as i64 + row as i64;
        let dy: i64 = region.dst_y as i64 + row as i64;
        let live: bool = 0 <= sy && sy < ch && 0 <= dy && dy < th;
        let mut col: u32 = 0;
        while live && col < region.width
            invariant
                col <= region.width,
                row < region.height,
                cw == content_w,
                ch == content_h,
                tw == target_w,
                th == target_h,
                sy == region.src_y + row,
                dy == region.dst_y + row,
                live == (0 <= sy < ch && 0 <= dy < th),
                content@.len() == 4 * content_w * content_h,
                target@.len() == 4 * target_w * target_h,
                content@.len() == content_len,
                target@.len() == target_len,
                old(target)@.len() == target@.len(),
                want == region_drawn(
                    content@,
                    content_w as int,
                    content_h as int,
                    old(target)@,
                    target_w as int,
                    region,
                ),
                forall|i: int|
                    0 <= i < target@.len() ==> #[trigger] target@[i] == (if had_turn(
                        region,
                        target_w as int,
                        i,
                        row as int,
                        col as int,
                    ) {
                        want[i]
                    } else {
                        old(target)@[i]
                    }),
            decreases region.width - col,
        {
            let sx: i64 = region.src_x as i64 + col as i64;
            let dx: i64 = region.dst_x as i64 + col as i64;
            let ghost before = target@;
            if 0 <= sx && sx < cw && 0 <= dx && dx < tw {
                proof {
                    lemma_offset_in_picture(sx as int, sy as int, cw as int, ch as int);
                    lemma_offset_in_picture(dx as int, dy as int, tw as int, th as int);
                }
                let si: usize = ((sy as u64 * cw as u64 + sx as u64) * 4) as usize;
                let di: usize = ((dy as u64 * tw as u64 + dx as u64) * 4) as usize;
                assert(si == offset_of(sx as int, sy as int, cw as int));
                assert(di == offset_of(dx as int, dy as int, tw as int));
                let alpha: u8 = content[si + 3];
                if alpha > 0 {
                    let mut k: usize = 0;
                    while k < 4
                        invariant
                            k <= 4,
                            si + 4 <= content@.len(),
                            di + 4 <= target@.len(),
                            content@.len() == content_len,
                            target@.len() == target_len,
                            target@.len() == before.len(),
                            alpha == content@[si + 3],
                            forall|j: int|
                                0 <= j < target@.len() ==> #[trigger] target@[j] == (if di <= j
                                    < di + k {
                                    over(content@[si + j - di], before[j], alpha)
                                } else {
                                    before[j]
                                }),
                        decreases 4 - k,
                    {
                        target[di + k] = lay_over(content[si + k], target[di + k], alpha);
                        k += 1;
                    }
                }
                proof {
                    assert forall|i: int| 0 <= i < target@.len() implies #[trigger] target@[i]
                        == (if had_turn(region, target_w as int, i, row as int, col + 1) {
                        want[i]
                    } else {
                        old(target)@[i]
                    }) by {
                        lemma_pixel_bytes(dx as int, dy as int, tw as int, i);
                        if di <= i < di + 4 {
                            assert(di % 4 == 0);
                            assert(i % 4 == i - di);
                            assert(source_of(
                                region,
                                content_w as int,
                                content_h as int,
                                dx as int,
                                dy as int,
                            ) == Some((sx as int, sy as int)));
                            assert(before[i] == old(target)@[i]);
                        }
                    }
                }
            } else {
                proof {
                    assert forall|i: int| 0 <= i < target@.len() implies #[trigger] target@[i]
                        == (if had_turn(region, target_w as int, i, row as int, col + 1) {
                        want[i]
                    } else {
                        old(target)@[i]
                    }) by {
                        lemma_row_in_picture(i, tw as int, th as int);
                        lemma_pixel_bytes(dx as int, dy as int, tw as int, i);
                    }
                }
            }
            col += 1;
        }
        proof {
            assert forall|i: int| 0 <= i < target@.len() implies #[trigger] target@[i] == (
            if had_turn(region, target_w as int, i, row + 1, 0) {
                want[i]
            } else {
                old(target)@[i]
            }) by {
                lemma_row_in_picture(i, tw as int, th as int);
                lemma_pixel_bytes(0, 0, tw as int, i);
            }
        }
        row += 1;
    }
    proof {
        assert forall|i: int| 0 <= i < target@.len() implies target@[i] == want[i] by {
            if !had_turn(region, target_w as int, i, region.height as int, 0) {
                assert(want[i] == old(target)@[i]);
            }
        }
        assert(target@ =~= want);
    }
}

/// The widest picture that can be drawn.
pub const MAX_PICTURE_WIDTH: u32 = 0x1fff_ffff;

/// The highest picture that can be drawn.
pub const MAX_PICTURE_HEIGHT: u32 = 0x7fff_ffff;

/// Whether bytes are a picture of a given size: four bytes for each of its
/// pixels, of which there is at least one, in rows that are not too wide
/// and not too many.
pub open spec fn is_picture(data: Seq<u8>, width: u32, height: u32) -> bool {
    0 < width <= MAX_PICTURE_WIDTH && 0 < height <= MAX_PICTURE_HEIGHT && data.len() == 4
        * width * height
}

/// Whether a picture of a given size can be put at an offset: its width and
/// height and its right and bottom edges are coordinates still.
pub open spec fn placeable(width: u32, height: u32, x: i32, y: i32) -> bool {
    width <= i32::MAX && height <= i32::MAX && x + width <= i32::MAX && y + height <= i32::MAX
}

/// What `tiny_skia` makes of a target picture when a content picture is
/// drawn on it at an offset, with the default paint.
pub uninterp spec fn pixmap_drawn(
    content: Seq<u8>,
    content_w: int,
    content_h: int,
    target: Seq<u8>,
    target_w: int,
    target_h: int,
    x: int,
    y: int,
) -> Seq<u8>;

/// `tiny_skia::PixmapMut::draw_pixmap` with the default paint, the identity
/// transform and no mask, on pixmaps made of the buffers by `from_bytes`.
/// The result is named, not stated. Both buffers have to be pictures of
/// their sizes, or `from_bytes` gives none; the content has to be placeable
/// at the offset, or the crate fails on the rectangle it draws into; and
/// the target's sizes have to be coordinates, or it fails on the target's
/// own rectangle.
#[verifier::external_body]
fn draw_pixmap(
    content: &[u8],
    content_w: u32,
    content_h: u32,
    target: &mut [u8],
    target_w: u32,
    target_h: u32,
    x: i32,
    y: i32,
)
    requires
        is_picture(content@, content_w, content_h),
        is_picture(old(target)@, target_w, target_h),
        placeable(content_w, content_h, x, y),
    ensures
        final(target)@ == pixmap_drawn(
            content@,
            content_w as int,
            content_h as int,
            old(target)@,
            target_w as int,
            target_h as int,
            x as int,
            y as int,
        ),
        final(target)@.len() == old(target)@.len(),
{
    let source = tiny_skia::PixmapRef::from_bytes(content, content_w, content_h).unwrap();
    let mut pixmap = tiny_skia::PixmapMut::from_bytes(target, target_w, target_h).unwrap();
    pixmap.draw_pixmap(
        x,
        y,
        source,
        &tiny_skia::PixmapPaint::default(),
        tiny_skia::Transform::identity(),
        None,
    );
}

/// The target after the whole content was drawn on it at an offset. A
/// content without pixels, or one that cannot be put at the offset, leaves
/// the target as it is, and so does a target without pixels.
pub open spec fn whole_drawn(
    content: Seq<u8>,
    content_w: u32,
    content_h: u32,
    target: Seq<u8>,
    target_w: u32,
    target_h: u32,
    x: i32,
    y: i32,
) -> Seq<u8> {
    if is_picture(content, content_w, content_h) && is_picture(target, target_w, target_h)
        && placeable(content_w, content_h, x, y) {
        pixmap_drawn(
            content,
            content_w as int,
            content_h as int,
            target,
            target_w as int,
            target_h as int,
            x as int,
            y as int,
        )
    } else {
        target
    }
}

/// Whether a buffer is a picture of a given size.
pub fn check_picture(data: &[u8], width: u32, height: u32) -> (r: bool)
    ensures
        r == is_picture(data@, width, height),
{
    if width == 0 || width > MAX_PICTURE_WIDTH || height == 0 || height > MAX_PICTURE_HEIGHT {
        return false;
    }
    assert(4 * width * height <= 4 * 0x1fff_ffff * 0xffff_ffff) by (nonlinear_arith)
        requires
            width <= 0x1fff_ffff,
            height <= 0xffff_ffff,
    ;
    data.len() as u128 == 4 * width as u128 * height as u128
}

/// Whether a picture of a given size can be put at an offset.
pub fn can_place(width: u32, height: u32, x: i32, y: i32) -> (r: bool)
    ensures
        r == placeable(width, height, x, y),
{
    width <= 0x7fff_ffff && height <= 0x7fff_ffff && x as i64 + width as i64 <= 0x7fff_ffff && y as i64
        + height as i64 <= 0x7fff_ffff
}

/// Draws the whole content on the target at an offset.
pub fn draw_whole(
    content: &[u8],
    content_w: u32,
    content_h: u32,
    target: &mut [u8],
    target_w: u32,
    target_h: u32,
    x: i32,
    y: i32,
)
    ensures
        final(target)@ == whole_drawn(
            content@,
            content_w,
            content_h,
            old(target)@,
            target_w,
            target_h,
            x,
            y,
        ),
        final(target)@.len() == old(target)@.len(),
{
    if check_picture(content, content_w, content_h) && check_picture(target, target_w, target_h)
        && can_place(content_w, content_h, x, y) {
        draw_pixmap(content, content_w, content_h, target, target_w, target_h, x, y);
    }
}

/// The target after regions of the content were drawn on it, in order.
pub open spec fn regions_drawn(
    content: Seq<u8>,
    content_w: int,
    content_h: int,
    target: Seq<u8>,
    target_w: int,
    regions: Seq<Region>,
) -> Seq<u8>
    decreases regions.len(),
{
    if regions.len() == 0 {
        target
    } else {
        region_drawn(
            content,
            content_w,
            content_h,
            regions_drawn(content, content_w, content_h, target, target_w, regions.drop_last()),
            target_w,
            regions.last(),
        )
    }
}

/// Draws regions of the content onto the target, in order.
pub fn draw_regions(
    content: &[u8],
    content_w: u32,
    content_h: u32,
    target: &mut [u8],
    target_w: u32,
    target_h: u32,
    regions: &[Region],
)
    requires
        content@.len() == 4 * content_w * content_h,
        old(target)@.len() == 4 * target_w * target_h,
    ensures
        final(target)@ == regions_drawn(
            content@,
            content_w as int,
            content_h as int,
            old(target)@,
            target_w as int,
            regions@,
        ),
        final(target)@.len() == old(target)@.len(),
{
    let n: usize = regions.len();
    let mut i: usize = 0;
    assert(regions@.take(0).len() == 0);
    while i < n
        invariant
            i <= n,
            n == regions@.len(),
            content@.len() == 4 * content_w * content_h,
            target@.len() == 4 * target_w * target_h,
            target@.len() == old(target)@.len(),
            target@ == regions_drawn(
                content@,
                content_w as int,
                content_h as int,
                old(target)@,
                target_w as int,
                regions@.take(i as int),
            ),
        decreases n - i,
    {
        proof {
            assert(regions@.take(i + 1).drop_last() =~= regions@.take(i as int));
            assert(regions@.take(i + 1).last() == regions@[i as int]);
        }
        draw_region(content, content_w, content_h, target, target_w, target_h, regions[i]);
        i += 1;
    }
    assert(regions@.take(n as int) =~= regions@);
}

/// The area's picture after an effect has drawn the content on it. A fade
/// draws nothing here: blending with an opacity is left to the caller.
pub open spec fn effect_drawn(
    draw: DrawPlan,
    content: Seq<u8>,
    target: Seq<u8>,
    width: u32,
    height: u32,
) -> Seq<u8> {
    match draw {
        DrawPlan::Nothing => target,
        DrawPlan::Faded { opacity } => target,
        DrawPlan::Whole { dx, dy } => whole_drawn(
            content,
            width,
            height,
            target,
            width,
            height,
            dx,
            dy,
        ),
        DrawPlan::Regions(regions) => regions_drawn(
            content,
            width as int,
            height as int,
            target,
            width as int,
            regions,
        ),
    }
}

/// The opacity with which the caller has to blend the content over the
/// area, where the effect is a fade.
pub open spec fn left_to_blend(draw: DrawPlan) -> Option<Progress> {
    match draw {
        DrawPlan::Faded { opacity } => Some(opacity),
        _ => None,
    }
}

/// Carries out what an effect draws: puts the content of an item on the
/// picture of its area, both of the area's size. For a fade nothing is
/// drawn and the opacity is handed back, for the caller to blend with.
pub fn draw_effect(
    draw: &EffectDraw,
    content: &[u8],
    target: &mut [u8],
    width: u32,
    height: u32,
) -> (blend: Option<Progress>)
    requires
        content@.len() == 4 * width * height,
        old(target)@.len() == 4 * width * height,
    ensures
        final(target)@ == effect_drawn(draw@, content@, old(target)@, width, height),
        final(target)@.len() == old(target)@.len(),
        blend == left_to_blend(draw@),
{
    match draw {
        EffectDraw::Nothing => None,
        EffectDraw::Faded { opacity } => Some(*opacity),
        EffectDraw::Whole { dx, dy } => {
            draw_whole(content, width, height, target, width, height, *dx, *dy);
            None
        },
        EffectDraw::Regions(regions) => {
            draw_regions(content, width, height, target, width, height, regions.as_slice());
            None
        },
    }
}

/// A picture of one colour.
pub open spec fn filled(len: nat, red: u8, green: u8, blue: u8, alpha: u8) -> Seq<u8> {
    Seq::new(
        len,
        |i: int|
            if i % 4 == 0 {
                red
            } else if i % 4 == 1 {
                green
            } else if i % 4 == 2 {
                blue
            } else {
                alpha
            },
    )
}

/// Fills a picture in RGBA order with one colour.
pub fn fill(data: &mut [u8], red: u8, green: u8, blue: u8, alpha: u8)
    ensures
        final(data)@ == filled(old(data)@.len(), red, green, blue, alpha),
{
    let n: usize = data.len();
    let mut i: usize = 0;
    while i < n
        invariant
            i <= n,
            data@.len() == n,
            old(data)@.len() == n,
            forall|j: int|
                0 <= j < i ==> data@[j] == filled(n as nat, red, green, blue, alpha)[j],
        decreases n - i,
    {
        let k: usize = i % 4;
        data[i] = if k == 0 {
            red
        } else if k == 1 {
            green
        } else if k == 2 {
            blue
        } else {
            alpha
        };
        i += 1;
    }
    assert(data@ =~= filled(n as nat, red, green, blue, alpha));
}

} // verus!
