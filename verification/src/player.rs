//! The player core: the programs being played, the commands that change
//! them and the rotation from one program to the next.

use crate::config::PlayerConfig;
use crate::program::model::Program;
use crate::program::model::Screen;
use crate::render::engine::area_frames;
use crate::render::engine::AreaFrame;
use crate::render::engine::AreaState;
use crate::render::engine::FramePlan;
use crate::render::engine::initial_areas;
use crate::render::engine::next_frame;
use crate::render::engine::RenderEngine;
use crate::render::engine::states_after;
use crate::services::brightness::clamp_level;
use crate::text::find;
use crate::text::find_bytes;
use crate::text::lemma_find_from;
use crate::text::matches_at;
use crate::text::parse_decimal;
use crate::text::parse_number;
use vstd::prelude::*;
use vstd::slice::slice_subrange;
use vstd::string::*;
use vstd::utf8::*;

verus! {

/// Commands sent to the player by the protocol handlers and the background
/// tasks.
#[derive(Debug)]
pub enum PlayerCommand {
    /// Load a new screen, replacing all programs.
    LoadScreen(Screen),
    /// Set the brightness (0 to 100).
    SetBrightness(u8),
    /// Turn the screen on or off.
    ScreenPower(bool),
}

/// What a command says, with its texts as character sequences.
pub enum CommandView {
    LoadScreen { timestamps: Seq<char>, programs: Seq<Program> },
    SetBrightness(u8),
    ScreenPower(bool),
}

impl View for PlayerCommand {
    type V = CommandView;

    open spec fn view(&self) -> CommandView {
        match *self {
            PlayerCommand::LoadScreen(screen) => CommandView::LoadScreen {
                timestamps: screen.timestamps@,
                programs: screen.programs@,
            },
            PlayerCommand::SetBrightness(level) => CommandView::SetBrightness(level),
            PlayerCommand::ScreenPower(on) => CommandView::ScreenPower(on),
        }
    }
}

/// How many commands may wait for the player.
pub const COMMAND_QUEUE_CAPACITY: usize = 64;

/// The seconds between two frames that are saved as pictures.
pub const SNAPSHOT_INTERVAL_SECS: u64 = 5;

/// The duration of a program that states none, in seconds.
pub const DEFAULT_PROGRAM_SECS: u32 = 10;

/// The separator of the fields of a duration.
pub open spec fn colon() -> Seq<u8> {
    seq![0x3au8]
}

/// The seconds that a duration of the form `HH:MM:SS` amounts to: three
/// decimal numbers between two colons, whose total fits 32 bits.
pub open spec fn duration_secs(s: Seq<u8>) -> Option<u32> {
    match find(s, colon()) {
        None => None,
        Some(i) => {
            let rest = s.subrange(i + 1, s.len() as int);
            match find(rest, colon()) {
                None => None,
                Some(j) => {
                    let last = rest.subrange(j + 1, rest.len() as int);
                    if find(last, colon()) is Some {
                        None
                    } else {
                        match (
                            parse_decimal(s.subrange(0, i), 0xffff_ffff),
                            parse_decimal(rest.subrange(0, j), 0xffff_ffff),
                            parse_decimal(last, 0xffff_ffff),
                        ) {
                            (Some(h), Some(m), Some(sec)) => if h * 3600 + m * 60 + sec
                                <= 0xffff_ffff {
                                Some((h * 3600 + m * 60 + sec) as u32)
                            } else {
                                None
                            },
                            _ => None,
                        }
                    }
                },
            }
        },
    }
}

/// Parses a duration of the form `HH:MM:SS` to seconds.
pub fn parse_duration_secs(s: &str) -> (r: Option<u32>)
    ensures
        r == duration_secs(s.spec_bytes()),
{
    let bytes = s.as_bytes();
    let n: usize = bytes.len();
    let sep: Vec<u8> = vec![0x3au8];
    assert(sep@ =~= colon());
    let i = match find_bytes(bytes, sep.as_slice()) {
        Some(i) => i,
        None => { return None; },
    };
    proof {
        lemma_find_from(bytes@, sep@, 0);
        assert(matches_at(bytes@, sep@, i as int));
    }
    let rest = slice_subrange(bytes, i + 1, n);
    let m: usize = rest.len();
    let j = match find_bytes(rest, sep.as_slice()) {
        Some(j) => j,
        None => { return None; },
    };
    proof {
        lemma_find_from(rest@, sep@, 0);
        assert(matches_at(rest@, sep@, j as int));
    }
    let last = slice_subrange(rest, j + 1, m);
    if find_bytes(last, sep.as_slice()).is_some() {
        return None;
    }
    let hours = parse_number(slice_subrange(bytes, 0, i), 0xffff_ffff);
    let minutes = parse_number(slice_subrange(rest, 0, j), 0xffff_ffff);
    let seconds = parse_number(last, 0xffff_ffff);
    match (hours, minutes, seconds) {
        (Some(h), Some(m), Some(sec)) => {
            let total: u64 = h * 3600 + m * 60 + sec;
            if total <= 0xffff_ffff {
                Some(total as u32)
            } else {
                None
            }
        },
        _ => None,
    }
}

/// How long a program plays, in seconds: the duration of its play control,
/// or ten seconds where it states none that can be read.
pub open spec fn program_secs(program: Program) -> u32 {
    match program.play_control {
        Some(control) => match duration_secs(encode_utf8(control.duration@)) {
            Some(secs) => secs,
            None => DEFAULT_PROGRAM_SECS,
        },
        None => DEFAULT_PROGRAM_SECS,
    }
}

/// How long a program plays, in seconds.
pub fn program_duration_secs(program: &Program) -> (r: u32)
    ensures
        r == program_secs(*program),
{
    match &program.play_control {
        Some(control) => match parse_duration_secs(control.duration.as_str()) {
            Some(secs) => secs,
            None => DEFAULT_PROGRAM_SECS,
        },
        None => DEFAULT_PROGRAM_SECS,
    }
}

/// The player: the programs, the one that plays, and the compositor.
///
/// Programs play in turn, each for the duration of its play control. The
/// date, time and week filters of a play control are kept in the model and
/// play no part in the rotation.
pub struct Player {
    config: PlayerConfig,
    engine: RenderEngine,
    programs: Vec<Program>,
    current_program: usize,
    program_start_frame: u64,
    screen_on: bool,
}

/// What the player plays: its programs, the cursor, the frame at which the
/// current program started, whether the screen is on, the brightness, the
/// playlists of the current program's areas, and the compositor's frame
/// clock and size.
pub struct PlayerView {
    pub programs: Seq<Program>,
    pub current: int,
    pub start_frame: u64,
    pub screen_on: bool,
    pub level: u8,
    pub areas: Seq<AreaState>,
    /// The number of frames planned so far.
    pub frame: u64,
    /// The time between two frames, in milliseconds.
    pub frame_ms: u64,
    /// The width and height of the display.
    pub size: (u32, u32),
}

/// The player after a command that arrives at a frame.
pub open spec fn commanded(v: PlayerView, command: CommandView, frame: u64) -> PlayerView {
    match command {
        CommandView::LoadScreen { timestamps, programs } => PlayerView {
            programs,
            current: 0,
            start_frame: frame,
            areas: if programs.len() > 0 {
                initial_areas(programs[0])
            } else {
                v.areas
            },
            ..v
        },
        CommandView::SetBrightness(level) => PlayerView { level: clamp_level(level), ..v },
        CommandView::ScreenPower(on) => PlayerView { screen_on: on, ..v },
    }
}

/// The frames that the current program plays at a frame rate.
pub open spec fn frames_of(program: Program, fps: u32) -> int {
    program_secs(program) * fps
}

/// The frames for which the current program has played at a frame.
pub open spec fn played(v: PlayerView, frame: u64) -> int {
    if frame >= v.start_frame {
        frame - v.start_frame
    } else {
        0
    }
}

/// The player after the rotation check at a frame. With two programs or
/// more, the next one starts once the current one has played its frames;
/// the first follows the last.
pub open spec fn rotated(v: PlayerView, fps: u32, frame: u64) -> PlayerView {
    if v.programs.len() > 1 && played(v, frame) >= frames_of(v.programs[v.current], fps) {
        let next = (v.current + 1) % (v.programs.len() as int);
        PlayerView {
            current: next,
            start_frame: frame,
            areas: initial_areas(v.programs[next]),
            ..v
        }
    } else {
        v
    }
}

/// The player after screens were taken in: their programs are added in
/// order, and the playlists of the first program of all start over.
/// Without any screen nothing changes.
pub open spec fn screens_loaded(v: PlayerView, screens: Seq<Screen>) -> PlayerView {
    if screens.len() == 0 {
        v
    } else {
        let programs = v.programs + all_programs(screens);
        PlayerView {
            programs,
            areas: if programs.len() > 0 {
                initial_areas(programs[0])
            } else {
                v.areas
            },
            ..v
        }
    }
}

/// Whether a frame is due: the screen is on and there is a program.
pub open spec fn is_frame_due(v: PlayerView) -> bool {
    v.screen_on && v.programs.len() > 0
}

/// The time of the next frame since the start, in milliseconds.
pub open spec fn frame_time(v: PlayerView) -> int {
    v.frame * v.frame_ms
}

/// The player after the next frame was planned: where a frame is due, the
/// playlists of the current program move on to the time of the frame and
/// the frame count goes up by one. Where none is due nothing changes.
pub open spec fn frame_planned(v: PlayerView) -> PlayerView {
    if is_frame_due(v) {
        PlayerView {
            areas: states_after(v.areas, v.programs[v.current], frame_time(v) as u64),
            frame: next_frame(v.frame),
            ..v
        }
    } else {
        v
    }
}

/// Frames follow each other in time: planning a frame never sets the time
/// of the next frame back, and leaves the time between frames and the size
/// of the display as they are.
pub proof fn lemma_frame_time_grows(v: PlayerView)
    ensures
        frame_time(frame_planned(v)) >= frame_time(v),
        frame_planned(v).frame >= v.frame,
        frame_planned(v).frame_ms == v.frame_ms,
        frame_planned(v).size == v.size,
{
    let after = frame_planned(v);
    assert(after.frame * v.frame_ms >= v.frame * v.frame_ms) by (nonlinear_arith)
        requires
            after.frame >= v.frame,
            v.frame_ms >= 0,
    ;
}

/// Loading a screen and then an empty one leaves no program, the cursor at
/// the start, and screen power and brightness as they were.
pub proof fn lemma_load_then_clear(
    v: PlayerView,
    timestamps: Seq<char>,
    programs: Seq<Program>,
    loaded_at: u64,
    cleared_at: u64,
)
    ensures
        ({
            let after = commanded(
                commanded(v, CommandView::LoadScreen { timestamps, programs }, loaded_at),
                CommandView::LoadScreen { timestamps: Seq::empty(), programs: Seq::empty() },
                cleared_at,
            );
            &&& after.programs == Seq::<Program>::empty()
            &&& after.current == 0
            &&& after.screen_on == v.screen_on
            &&& after.level == v.level
        }),
{
}

impl Player {
    /// The player is well formed: the frame rate is not zero, and the
    /// cursor points at a program, or at the start where there is none.
    pub open spec fn wf(&self) -> bool {
        &&& self.fps() > 0
        &&& 0 <= self.view().current < self.view().programs.len() || (
        self.view().programs.len() == 0 && self.view().current == 0)
    }

    /// What the player plays.
    pub closed spec fn view(&self) -> PlayerView {
        PlayerView {
            programs: self.programs@,
            current: self.current_program as int,
            start_frame: self.program_start_frame,
            screen_on: self.screen_on,
            level: self.engine.level(),
            areas: self.engine.states(),
            frame: self.engine.frame(),
            frame_ms: self.engine.frame_ms(),
            size: self.engine.size(),
        }
    }

    /// The configuration that the player was made with.
    pub closed spec fn settings(&self) -> PlayerConfig {
        self.config
    }

    /// The frame rate.
    pub open spec fn fps(&self) -> u32 {
        self.settings().fps
    }

    /// The compositor.
    pub closed spec fn compositor(&self) -> RenderEngine {
        self.engine
    }

    /// The compositor is the one that the view speaks of.
    pub proof fn lemma_compositor_in_view(&self)
        ensures
            self.compositor().states() == self.view().areas,
            self.compositor().level() == self.view().level,
            self.compositor().frame() == self.view().frame,
            self.compositor().frame_ms() == self.view().frame_ms,
            self.compositor().size() == self.view().size,
    {
    }

    /// A player without programs, with the screen on at full brightness.
    pub fn new(config: PlayerConfig) -> (p: Player)
        requires
            config.fps > 0,
        ensures
            p.wf(),
            p.settings() == config,
            p.view() == (PlayerView {
                programs: Seq::empty(),
                current: 0,
                start_frame: 0,
                screen_on: true,
                level: 100,
                areas: Seq::empty(),
                frame: 0,
                frame_ms: (1000int / (config.fps as int)) as u64,
                size: (config.width, config.height),
            }),
    {
        let engine = RenderEngine::new(config.width, config.height, config.fps);
        Player {
            config,
            engine,
            programs: Vec::new(),
            current_program: 0,
            program_start_frame: 0,
            screen_on: true,
        }
    }

    /// The configuration that the player was made with.
    pub fn config(&self) -> (r: &PlayerConfig)
        ensures
            *r == self.settings(),
    {
        &self.config
    }

    /// The programs.
    pub fn programs(&self) -> (r: &Vec<Program>)
        ensures
            r@ == self.view().programs,
    {
        &self.programs
    }

    /// The index of the program that plays.
    pub fn current_program(&self) -> (r: usize)
        ensures
            r == self.view().current,
    {
        self.current_program
    }

    /// Whether the screen is on.
    pub fn screen_on(&self) -> (r: bool)
        ensures
            r == self.view().screen_on,
    {
        self.screen_on
    }

    /// The compositor.
    pub fn engine(&self) -> (r: &RenderEngine)
        ensures
            *r == self.compositor(),
            r.states() == self.view().areas,
            r.level() == self.view().level,
            r.frame() == self.view().frame,
            r.frame_ms() == self.view().frame_ms,
            r.size() == self.view().size,
    {
        &self.engine
    }

    /// Takes in screens that were read from the program directory: their
    /// programs are added in order, and the first program of all starts
    /// over. Without any screen nothing changes and the result is false.
    pub fn load_screens(&mut self, screens: Vec<Screen>) -> (loaded: bool)
        requires
            old(self).wf(),
        ensures
            final(self).wf(),
            final(self).settings() == old(self).settings(),
            loaded == (screens@.len() > 0),
            final(self).view() == screens_loaded(old(self).view(), screens@),
    {
        let mut screens = screens;
        let n: usize = screens.len();
        if n == 0 {
            return false;
        }
        let ghost all = screens@;
        let mut i: usize = 0;
        while i < n
            invariant
                i <= n,
                all.len() == n,
                screens@.len() == n - i,
                forall|j: int| 0 <= j < n - i ==> screens@[j] == all[i + j],
                self.programs@ == old(self).programs@ + all_programs(all.take(i as int)),
                self.config == old(self).config,
                self.engine == old(self).engine,
                self.current_program == old(self).current_program,
                self.program_start_frame == old(self).program_start_frame,
                self.screen_on == old(self).screen_on,
            decreases n - i,
        {
            let mut screen = screens.remove(0);
            let ghost before = self.programs@;
            self.programs.append(&mut screen.programs);
            proof {
                assert(all.take(i + 1).drop_last() =~= all.take(i as int));
                assert(all.take(i + 1).last() == all[i as int]);
                assert(self.programs@ =~= old(self).programs@ + all_programs(all.take(i + 1)));
            }
            i += 1;
        }
        assert(all.take(n as int) =~= all);
        if self.programs.len() > 0 {
            self.engine.reset_for_program(&self.programs[0]);
        }
        true
    }

    /// Carries out a command that arrives at a frame.
    pub fn handle_command(&mut self, cmd: PlayerCommand, current_frame: u64)
        requires
            old(self).wf(),
        ensures
            final(self).wf(),
            final(self).settings() == old(self).settings(),
            final(self).view() == commanded(old(self).view(), cmd@, current_frame),
    {
        match cmd {
            PlayerCommand::LoadScreen(screen) => {
                self.programs = screen.programs;
                self.current_program = 0;
                self.program_start_frame = current_frame;
                if self.programs.len() > 0 {
                    self.engine.reset_for_program(&self.programs[0]);
                }
            },
            PlayerCommand::SetBrightness(level) => {
                self.engine.set_brightness(level);
            },
            PlayerCommand::ScreenPower(on) => {
                self.screen_on = on;
            },
        }
    }

    /// Moves on to the next program when the current one has played for its
    /// duration.
    pub fn check_program_rotation(&mut self, current_frame: u64)
        requires
            old(self).wf(),
        ensures
            final(self).wf(),
            final(self).settings() == old(self).settings(),
            final(self).view() == rotated(old(self).view(), old(self).fps(), current_frame),
    {
        let n: usize = self.programs.len();
        if n <= 1 {
            return ;
        }
        let secs: u32 = program_duration_secs(&self.programs[self.current_program]);
        assert(secs * self.config.fps <= 0xffff_ffff * 0xffff_ffff) by (nonlinear_arith)
            requires
                secs <= 0xffff_ffff,
                self.config.fps <= 0xffff_ffff,
        ;
        let frames_per_program: u64 = secs as u64 * self.config.fps as u64;
        let elapsed: u64 = if current_frame >= self.program_start_frame {
            current_frame - self.program_start_frame
        } else {
            0
        };
        if elapsed >= frames_per_program {
            let next: usize = (self.current_program + 1) % n;
            self.current_program = next;
            self.program_start_frame = current_frame;
            self.engine.reset_for_program(&self.programs[next]);
        }
    }

    /// Whether a frame is due: the screen is on and there is a program.
    pub fn frame_due(&self) -> (r: bool)
        ensures
            r == is_frame_due(self.view()),
    {
        self.screen_on && self.programs.len() > 0
    }

    /// Plans the next frame of the program that plays, if a frame is due.
    pub fn render_frame(&mut self) -> (plan: Option<FramePlan>)
        requires
            old(self).wf(),
        ensures
            final(self).wf(),
            final(self).settings() == old(self).settings(),
            plan is Some == is_frame_due(old(self).view()),
            final(self).view() == frame_planned(old(self).view()),
            plan matches Some(p) ==> {
                &&& p.elapsed_ms == frame_time(old(self).view())
                &&& p.brightness == old(self).view().level
                &&& p.areas@.map_values(|a: AreaFrame| a@) == area_frames(
                    old(self).view().programs[old(self).view().current].areas@,
                    final(self).view().areas,
                    old(self).view().programs[old(self).view().current].areas@.len() as int,
                )
            },
    {
        if self.screen_on && self.programs.len() > 0 {
            Some(self.engine.render_frame(&self.programs[self.current_program]))
        } else {
            None
        }
    }

    /// Whether the frame that follows `frames_rendered` frames is one to
    /// save as a picture: the first one, and then one every five seconds.
    pub fn snapshot_due(&self, frames_rendered: u64) -> (r: bool)
        requires
            self.wf(),
        ensures
            r == (frames_rendered % (self.fps() as u64 * SNAPSHOT_INTERVAL_SECS) as u64 == 0),
    {
        frames_rendered % (self.config.fps as u64 * SNAPSHOT_INTERVAL_SECS) == 0
    }
}

/// The programs of screens, in order.
pub open spec fn all_programs(screens: Seq<Screen>) -> Seq<Program>
    decreases screens.len(),
{
    if screens.len() == 0 {
        Seq::empty()
    } else {
        all_programs(screens.drop_last()) + screens.last().programs@
    }
}

} // verus!
