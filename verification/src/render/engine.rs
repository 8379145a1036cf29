//! The compositor's decisions: per frame, which item of each area plays and
//! what its effect draws.

use crate::program::model::Area;
use crate::program::model::ContentItem;
use crate::program::model::Effect;
use crate::program::model::fallback_effect;
use crate::program::model::Program;
use crate::program::model::Rectangle;
use crate::render::effects::apply_effect;
use crate::render::effects::DrawPlan;
use crate::render::effects::effect_draw;
use crate::render::effects::EffectDraw;
use crate::render::effects::EffectPhase;
use crate::render::effects::EffectState;
use crate::render::effects::none_done;
use crate::render::effects::step;
use crate::services::brightness::clamp_level;
use crate::services::brightness::dim_pixels;
use crate::services::brightness::dimmed;
use vstd::prelude::*;

verus! {

/// The frame counter stops here, so that the elapsed time stays a number
/// of milliseconds that fits.
pub const FRAME_LIMIT: u64 = 0x0040_0000_0000_0000;

/// Per-area state of the playlist.
#[derive(Debug, Clone, Copy, PartialEq, Eq, Structural)]
pub struct AreaState {
    /// Which item of the area's resources is playing.
    pub current_item: usize,
    pub effect: EffectState,
}

/// What is drawn for one area in one frame.
#[derive(Debug, Clone)]
pub struct AreaFrame {
    /// The index of the area in the program.
    pub area: usize,
    /// The index of the item that plays.
    pub item: usize,
    /// Where the area lies on the display.
    pub rectangle: Rectangle,
    /// The opacity with which the area is laid over the display.
    pub alpha: u8,
    /// What the effect draws of the item's content onto the area.
    pub draw: EffectDraw,
}

/// What is drawn for one area, with the drawing as a plan.
pub struct AreaFrameView {
    pub area: int,
    pub item: int,
    pub rectangle: Rectangle,
    pub alpha: u8,
    pub draw: DrawPlan,
}

impl View for AreaFrame {
    type V = AreaFrameView;

    open spec fn view(&self) -> AreaFrameView {
        AreaFrameView {
            area: self.area as int,
            item: self.item as int,
            rectangle: self.rectangle,
            alpha: self.alpha,
            draw: self.draw@,
        }
    }
}

/// What is drawn in one frame.
#[derive(Debug, Clone)]
pub struct FramePlan {
    /// The time of the frame since the start, in milliseconds.
    pub elapsed_ms: u64,
    /// The areas to draw, in the order of the program.
    pub areas: Vec<AreaFrame>,
    /// The brightness to apply to the finished frame.
    pub brightness: u8,
}

/// The compositor state: the playlists of the areas and the frame clock.
pub struct RenderEngine {
    width: u32,
    height: u32,
    area_states: Vec<AreaState>,
    frame: u64,
    ms_per_frame: u64,
    brightness: u8,
}

/// The effect of an item, or the fallback where it carries none.
pub open spec fn effect_of(item: ContentItem) -> Effect {
    match item.spec_effect() {
        Some(e) => e,
        None => fallback_effect(),
    }
}

/// The state in which an effect starts at a time.
pub open spec fn started(e: Effect, index: usize, start_ms: u64) -> EffectState {
    EffectState {
        current_index: index,
        phase: EffectPhase::Entering,
        progress: none_done(),
        phase_start_ms: start_ms,
        display_duration_ms: (e.duration * 100) as u64,
        effect_in: e.effect_in,
        effect_out: e.effect_out,
        in_speed: e.in_speed,
        out_speed: e.out_speed,
    }
}

/// The state of an area when its program is loaded: the first item, about
/// to enter.
pub open spec fn initial_area(area: Area) -> AreaState {
    AreaState {
        current_item: 0,
        effect: if area.resources.items@.len() > 0 {
            started(effect_of(area.resources.items@[0]), 0, 0)
        } else {
            started(fallback_effect(), 0, 0)
        },
    }
}

/// The states of the areas when a program is loaded.
pub open spec fn initial_areas(program: Program) -> Seq<AreaState> {
    Seq::new(program.areas@.len(), |i: int| initial_area(program.areas@[i]))
}

/// Whether an area is left out of a frame: it has no size or no items.
pub open spec fn skipped(area: Area) -> bool {
    area.rectangle.width == 0 || area.rectangle.height == 0 || area.resources.items@.len() == 0
}

/// The state of an area after a frame at time `t`. The effect is updated;
/// when the item is done and there are others, the next one starts, the
/// first following the last.
pub open spec fn area_after(area: Area, s: AreaState, t: u64) -> AreaState {
    if skipped(area) {
        s
    } else {
        let e = step(s.effect, t);
        let n = area.resources.items@.len();
        if e.phase == EffectPhase::Done && n > 1 {
            let next = ((s.current_item + 1) % (n as int)) as usize;
            AreaState {
                current_item: next,
                effect: started(effect_of(area.resources.items@[next as int]), e.current_index, t),
            }
        } else {
            AreaState { current_item: s.current_item, effect: e }
        }
    }
}

/// The effect code that applies in a phase.
pub open spec fn effect_code(e: EffectState) -> u8 {
    match e.phase {
        EffectPhase::Entering => e.effect_in,
        EffectPhase::Exiting => e.effect_out,
        _ => 0,
    }
}

/// What is drawn for an area in the state it has after a frame.
pub open spec fn area_frame(area: Area, index: int, s: AreaState) -> AreaFrameView {
    AreaFrameView {
        area: index,
        item: s.current_item as int,
        rectangle: area.rectangle,
        alpha: area.alpha,
        draw: effect_draw(
            effect_code(s.effect),
            s.effect.progress,
            s.effect.phase,
            area.rectangle.width,
            area.rectangle.height,
        ),
    }
}

/// What is drawn for the first `n` areas of a program in the states they
/// have after a frame: one entry for each area that is not skipped.
pub open spec fn area_frames(areas: Seq<Area>, states: Seq<AreaState>, n: int) -> Seq<
    AreaFrameView,
>
    decreases n,
{
    if n <= 0 {
        Seq::empty()
    } else if skipped(areas[n - 1]) {
        area_frames(areas, states, n - 1)
    } else {
        area_frames(areas, states, n - 1).push(area_frame(areas[n - 1], n - 1, states[n - 1]))
    }
}

/// Whether states are those of a program's areas: one for each area, each
/// pointing at an item that the area has.
pub open spec fn states_fit(states: Seq<AreaState>, program: Program) -> bool {
    &&& states.len() == program.areas@.len()
    &&& forall|i: int|
        0 <= i < states.len() ==> (#[trigger] states[i]).current_item
            < program.areas@[i].resources.items@.len() || program.areas@[i].resources.items@.len()
            == 0
}

/// The states from which a frame of a program starts: those at hand where
/// they fit the program, fresh ones otherwise.
pub open spec fn states_for(states: Seq<AreaState>, program: Program) -> Seq<AreaState> {
    if states_fit(states, program) {
        states
    } else {
        initial_areas(program)
    }
}

/// The states after a frame at time `t`.
pub open spec fn states_after(states: Seq<AreaState>, program: Program, t: u64) -> Seq<AreaState> {
    Seq::new(
        program.areas@.len(),
        |i: int| area_after(program.areas@[i], states_for(states, program)[i], t),
    )
}

/// The frame count after a frame.
pub open spec fn next_frame(frame: u64) -> u64 {
    if frame < FRAME_LIMIT {
        (frame + 1) as u64
    } else {
        frame
    }
}

/// The state in which an item's effect starts when its program is loaded.
pub fn get_effect_for_item(item: &ContentItem) -> (s: EffectState)
    ensures
        s == started(effect_of(*item), 0, 0),
{
    match item.effect() {
        Some(e) => EffectState::new(e.effect_in, e.effect_out, e.in_speed, e.out_speed, e.duration),
        None => EffectState::new(0, 0, 0, 0, 50),
    }
}

impl RenderEngine {
    #[verifier::type_invariant]
    closed spec fn clock_in_range(&self) -> bool {
        self.ms_per_frame <= 1000 && self.frame <= FRAME_LIMIT && self.brightness <= 100
    }

    /// The states of the areas.
    pub closed spec fn states(&self) -> Seq<AreaState> {
        self.area_states@
    }

    /// The number of frames planned so far.
    pub closed spec fn frame(&self) -> u64 {
        self.frame
    }

    /// The time between two frames, in milliseconds.
    pub closed spec fn frame_ms(&self) -> u64 {
        self.ms_per_frame
    }

    /// The software brightness.
    pub closed spec fn level(&self) -> u8 {
        self.brightness
    }

    /// The size of the display.
    pub closed spec fn size(&self) -> (u32, u32) {
        (self.width, self.height)
    }

    /// An engine for a display of the given size at a frame rate.
    pub fn new(width: u32, height: u32, fps: u32) -> (e: RenderEngine)
        requires
            fps > 0,
        ensures
            e.size() == (width, height),
            e.states() == Seq::<AreaState>::empty(),
            e.frame() == 0,
            e.frame_ms() == 1000int / (fps as int),
            e.level() == 100,
    {
        RenderEngine {
            width,
            height,
            area_states: Vec::new(),
            frame: 0,
            ms_per_frame: 1000 / fps as u64,
            brightness: 100,
        }
    }

    /// Sets the software brightness; a level above 100 becomes 100.
    pub fn set_brightness(&mut self, level: u8)
        ensures
            final(self).level() == clamp_level(level),
            final(self).states() == old(self).states(),
            final(self).frame() == old(self).frame(),
            final(self).frame_ms() == old(self).frame_ms(),
            final(self).size() == old(self).size(),
    {
        proof {
            use_type_invariant(&*self);
        }
        self.brightness = if level > 100 {
            100
        } else {
            level
        };
    }

    /// Starts the playlists of a program's areas over.
    pub fn reset_for_program(&mut self, program: &Program)
        ensures
            final(self).states() == initial_areas(*program),
            states_fit(final(self).states(), *program),
            final(self).level() == old(self).level(),
            final(self).frame() == old(self).frame(),
            final(self).frame_ms() == old(self).frame_ms(),
            final(self).size() == old(self).size(),
    {
        proof {
            use_type_invariant(&*self);
        }
        let mut states: Vec<AreaState> = Vec::new();
        let n: usize = program.areas.len();
        let mut i: usize = 0;
        while i < n
            invariant
                i <= n,
                n == program.areas@.len(),
                states@.len() == i,
                forall|j: int| 0 <= j < i ==> states@[j] == initial_area(program.areas@[j]),
            decreases n - i,
        {
            let items = &program.areas[i].resources.items;
            let effect = if items.len() > 0 {
                get_effect_for_item(&items[0])
            } else {
                EffectState::new(0, 0, 0, 0, 50)
            };
            states.push(AreaState { current_item: 0, effect });
            i += 1;
        }
        assert(states@ =~= initial_areas(*program));
        self.area_states = states;
    }

    /// Whether the states at hand are those of a program's areas.
    fn fits(&self, program: &Program) -> (r: bool)
        ensures
            r == states_fit(self.states(), *program),
    {
        let n: usize = self.area_states.len();
        if n != program.areas.len() {
            return false;
        }
        let mut i: usize = 0;
        while i < n
            invariant
                i <= n,
                n == self.area_states@.len(),
                n == program.areas@.len(),
                forall|j: int|
                    0 <= j < i ==> (#[trigger] self.area_states@[j]).current_item
                        < program.areas@[j].resources.items@.len()
                        || program.areas@[j].resources.items@.len() == 0,
            decreases n - i,
        {
            let count: usize = program.areas[i].resources.items.len();
            if count != 0 && self.area_states[i].current_item >= count {
                return false;
            }
            i += 1;
        }
        true
    }

    /// Plans one frame of a program: moves each area's playlist on to the
    /// time of the frame and says what is drawn for it.
    ///
    /// The time of the frame is the number of frames so far times the time
    /// between frames. Areas without size or items are left out. States that
    /// do not fit the program are replaced by fresh ones first.
    pub fn render_frame(&mut self, program: &Program) -> (plan: FramePlan)
        ensures
            plan.elapsed_ms == old(self).frame() * old(self).frame_ms(),
            final(self).states() == states_after(old(self).states(), *program, plan.elapsed_ms),
            states_fit(final(self).states(), *program),
            plan.areas@.map_values(|a: AreaFrame| a@) == area_frames(
                program.areas@,
                final(self).states(),
                program.areas@.len() as int,
            ),
            plan.brightness == old(self).level(),
            final(self).frame() == next_frame(old(self).frame()),
            final(self).level() == old(self).level(),
            final(self).frame_ms() == old(self).frame_ms(),
            final(self).size() == old(self).size(),
    {
        proof {
            use_type_invariant(&*self);
        }
        assert(self.frame * self.ms_per_frame <= FRAME_LIMIT * 1000) by (nonlinear_arith)
            requires
                self.frame <= FRAME_LIMIT,
                self.ms_per_frame <= 1000,
        ;
        let elapsed_ms: u64 = self.frame * self.ms_per_frame;
        if !self.fits(program) {
            self.reset_for_program(program);
        }
        let ghost start = self.area_states@;
        assert(start == states_for(old(self).states(), *program));
        let n: usize = program.areas.len();
        let mut areas: Vec<AreaFrame> = Vec::new();
        let mut next: Vec<AreaState> = Vec::new();
        let mut i: usize = 0;
        while i < n
            invariant
                i <= n,
                n == program.areas@.len(),
                states_fit(start, *program),
                start == self.area_states@,
                next@.len() == i,
                forall|j: int|
                    0 <= j < i ==> next@[j] == area_after(program.areas@[j], start[j], elapsed_ms),
                areas@.map_values(|a: AreaFrame| a@) == area_frames(
                    program.areas@,
                    next@,
                    i as int,
                ),
            decreases n - i,
        {
            let area = &program.areas[i];
            let items = &area.resources.items;
            let w: u32 = area.rectangle.width;
            let h: u32 = area.rectangle.height;
            let ghost before = next@;
            let ghost drawn = areas@.map_values(|a: AreaFrame| a@);
            let mut state = self.area_states[i];
            if w != 0 && h != 0 && items.len() != 0 {
                let advance = state.effect.update(elapsed_ms);
                if advance && items.len() > 1 {
                    state.current_item = (state.current_item + 1) % items.len();
                    let e = items[state.current_item].effect();
                    let e = match e {
                        Some(e) => e,
                        None => Effect {
                            effect_in: 0,
                            effect_out: 0,
                            in_speed: 0,
                            out_speed: 0,
                            duration: 50,
                        },
                    };
                    state.effect.reset(
                        e.effect_in,
                        e.effect_out,
                        e.in_speed,
                        e.out_speed,
                        e.duration,
                        elapsed_ms,
                    );
                }
                assert(state == area_after(program.areas@[i as int], start[i as int], elapsed_ms));
                let code: u8 = match state.effect.phase {
                    EffectPhase::Entering => state.effect.effect_in,
                    EffectPhase::Exiting => state.effect.effect_out,
                    _ => 0,
                };
                let draw = apply_effect(code, state.effect.progress, state.effect.phase, w, h);
                let frame = AreaFrame {
                    area: i,
                    item: state.current_item,
                    rectangle: area.rectangle,
                    alpha: area.alpha,
                    draw,
                };
                areas.push(frame);
                proof {
                    assert(frame@ == area_frame(program.areas@[i as int], i as int, state));
                    assert(areas@.map_values(|a: AreaFrame| a@) =~= drawn.push(frame@));
                }
            }
            next.push(state);
            proof {
                lemma_frames_ignore_later(program.areas@, before, next@, i as int);
            }
            i += 1;
        }
        if self.frame < FRAME_LIMIT {
            self.frame = self.frame + 1;
        }
        self.area_states = next;
        proof {
            assert(self.area_states@ =~= states_after(old(self).states(), *program, elapsed_ms));
            assert forall|j: int| 0 <= j < n implies (#[trigger] self.area_states@[j]).current_item
                < program.areas@[j].resources.items@.len()
                || program.areas@[j].resources.items@.len() == 0 by {
                let len = program.areas@[j].resources.items@.len() as int;
                let cur = start[j].current_item as int;
                if len > 0 {
                    assert(0 <= (cur + 1) % len < len) by (nonlinear_arith)
                        requires
                            len > 0,
                            cur >= 0,
                    ;
                }
            }
        }
        FramePlan { elapsed_ms, areas, brightness: self.brightness }
    }

    /// Applies the software brightness to the pixels of a finished frame,
    /// in RGBA order.
    pub fn apply_brightness(&self, pixels: &mut [u8])
        ensures
            final(pixels)@ == dimmed(old(pixels)@, self.level()),
    {
        dim_pixels(pixels, self.brightness);
    }

    /// The time between two frames, in milliseconds.
    pub fn ms_per_frame(&self) -> (r: u64)
        ensures
            r == self.frame_ms(),
            r <= 1000,
    {
        proof {
            use_type_invariant(self);
        }
        self.ms_per_frame
    }

    pub fn width(&self) -> (r: u32)
        ensures
            r == self.size().0,
    {
        self.width
    }

    pub fn height(&self) -> (r: u32)
        ensures
            r == self.size().1,
    {
        self.height
    }
}

/// What is drawn for the first areas depends on their states only.
pub proof fn lemma_frames_ignore_later(
    areas: Seq<Area>,
    a: Seq<AreaState>,
    b: Seq<AreaState>,
    n: int,
)
    requires
        forall|j: int| 0 <= j < n ==> a[j] == b[j],
    ensures
        area_frames(areas, a, n) == area_frames(areas, b, n),
    decreases n,
{
    if n > 0 {
        lemma_frames_ignore_later(areas, a, b, n - 1);
    }
}

} // verus!
