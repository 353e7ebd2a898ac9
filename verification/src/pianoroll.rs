//! The interaction state machine: one event in, one state out, and on the
//! way an edit of the score, a move of the view or commands to the
//! synthesizer.

use vstd::prelude::*;
use crate::fixed::{
    fits, lemma_product_bound, mul_wide, narrow, nearest, round_div, Fixed, ONE,
};
use crate::geometry::{duration_seconds, normalize_square, normalized, seconds_of, Vector2};
use crate::msg::{Command, Msg, KEY_ARROW, KEY_DELETE, KEY_PENCIL, KEY_TRANSPORT};
use crate::laws::lemma_step_preserves_wf;
use crate::score::{among, Brick, Note, Score, ScoreView};
use crate::ui::{Grid, Style};

verus! {

/// What the user is in the middle of.
#[derive(Debug, Clone, PartialEq, Eq)]
pub enum State {
    Idle,
    /// A note is being drawn.
    Drawing(Brick),
    /// Playback runs: the position, in measures, and the last tick whose
    /// notes have been sent.
    Playing(Fixed, i16),
    /// The button went down at this pixel with the arrow tool.
    PointSelected(Vector2),
    /// These notes are selected.
    NotesSelected(Vec<Note>),
    /// A selection frame is being dragged between these two pixels.
    SelectFrame(Vector2, Vector2),
}

/// A state as a mathematical value.
pub enum StateView {
    Idle,
    Drawing(Brick),
    Playing(Fixed, i16),
    PointSelected(Vector2),
    NotesSelected(Seq<Note>),
    SelectFrame(Vector2, Vector2),
}

impl View for State {
    type V = StateView;

    open spec fn view(&self) -> StateView {
        match *self {
            State::Idle => StateView::Idle,
            State::Drawing(b) => StateView::Drawing(b),
            State::Playing(p, t) => StateView::Playing(p, t),
            State::PointSelected(p) => StateView::PointSelected(p),
            State::NotesSelected(v) => StateView::NotesSelected(v@),
            State::SelectFrame(a, b) => StateView::SelectFrame(a, b),
        }
    }
}

/// What a press of the left button does.
#[derive(Debug, Clone, Copy, PartialEq, Eq)]
pub enum Tool {
    /// Selects notes and sets the play position.
    Arrow,
    /// Draws and erases notes.
    Pencil,
}

/// The time in ticks, as a fixed-point number, of the even tick nearest to
/// the time `x` in measures.
pub open spec fn snapped(x: int, measure_ticks: int) -> int {
    round_div(x * measure_ticks, 2 * ONE) * (2 * ONE)
}

/// The editor as a mathematical value.
pub struct PianoRollView {
    pub state: StateView,
    pub tool: Tool,
    pub grid: Grid,
    /// Where playback starts, in measures.
    pub play_pos: Fixed,
    pub score: ScoreView,
}

impl PianoRollView {
    /// The editor as it starts: idle, with the arrow tool, an empty score and
    /// a viewport of 1024 by 768 pixels that shows the measures from -1/4 to
    /// 12 and the pitches from 31 to 155.
    pub open spec fn initial() -> PianoRollView {
        PianoRollView {
            state: StateView::Idle,
            tool: Tool::Arrow,
            grid: Grid {
                size: Vector2 { x: (1024 * ONE) as i64, y: (768 * ONE) as i64 },
                view: (
                    Vector2 { x: (-(ONE / 4)) as i64, y: (31 * ONE) as i64 },
                    Vector2 { x: (12 * ONE) as i64, y: (155 * ONE) as i64 },
                ),
                style: Style::Dark,
                beats: 4,
                thin_width: ONE,
                thick_width: (2 * ONE) as i64,
            },
            play_pos: 0,
            score: ScoreView { measure_ticks: 16, notes: Seq::empty() },
        }
    }

    /// What holds of every state that the editor gets into: no note of the
    /// score ends before it starts; and a selection is not empty and holds,
    /// in score order, each note of the score that is equal to one of its
    /// members.
    pub open spec fn wf(self) -> bool {
        &&& forall|i: int|
            0 <= i < self.score.notes.len() ==> (#[trigger] self.score.notes[i]).ordered()
        &&& self.state matches StateView::NotesSelected(selected) ==> {
            &&& selected.len() > 0
            &&& selected == self.score.notes.filter(among(selected))
        }
    }

    /// This editor in another state.
    pub open spec fn with_state(self, state: StateView) -> PianoRollView {
        PianoRollView { state, ..self }
    }

    /// This editor with another grid.
    pub open spec fn with_grid(self, grid: Grid) -> PianoRollView {
        PianoRollView { grid, ..self }
    }

    /// The brick that a press of the pencil at pixel `position` starts: it
    /// has no length yet, lies on the even tick nearest to the pointer and at
    /// the pitch under the pointer.  `None` where the grid has no point for
    /// the pixel or the tick does not fit.
    pub open spec fn brick_at(self, position: Vector2) -> Option<Brick> {
        match self.grid.positioned(position) {
            Some(p) => {
                let t = snapped(p.x as int, self.score.measure_ticks as int);
                if fits(t) {
                    Some(Brick { time: (t as i64, t as i64), pitch: p.y })
                } else {
                    None
                }
            },
            None => None,
        }
    }

    /// The brick `brick` with its free end moved to the time under pixel
    /// `position`, in ticks and not snapped.  The end where the button went
    /// down and the pitch stay.  `None` where the grid has no point for the
    /// pixel or the time does not fit.
    pub open spec fn brick_to(self, brick: Brick, position: Vector2) -> Option<Brick> {
        match self.grid.positioned(position) {
            Some(p) => if fits(p.x * self.score.measure_ticks) {
                Some(
                    Brick {
                        time: (brick.time.0, (p.x * self.score.measure_ticks) as i64),
                        pitch: brick.pitch,
                    },
                )
            } else {
                None
            },
            None => None,
        }
    }

    /// The left button goes down at pixel `position`.  This counts only when
    /// the editor is idle: the arrow marks the point, the pencil starts a
    /// brick.
    pub open spec fn pressed(self, position: Vector2) -> PianoRollView {
        match (self.state, self.tool) {
            (StateView::Idle, Tool::Arrow) => self.with_state(StateView::PointSelected(position)),
            (StateView::Idle, Tool::Pencil) => match self.brick_at(position) {
                Some(brick) => self.with_state(StateView::Drawing(brick)),
                None => self,
            },
            _ => self,
        }
    }

    /// The pointer moves to pixel `position` with the left button held: a
    /// brick follows with its free end, a marked point becomes the first
    /// corner of a selection frame, and a frame follows with its second
    /// corner.
    pub open spec fn dragged(self, position: Vector2) -> PianoRollView {
        match self.state {
            StateView::Drawing(brick) => match self.brick_to(brick, position) {
                Some(b) => self.with_state(StateView::Drawing(b)),
                None => self,
            },
            StateView::PointSelected(point) => self.with_state(
                StateView::SelectFrame(point, position),
            ),
            StateView::SelectFrame(start, _) => self.with_state(
                StateView::SelectFrame(start, position),
            ),
            _ => self,
        }
    }

    /// The notes that the frame between the pixels `a` and `b` selects: those
    /// whose box overlaps the rectangle that the two corners span in musical
    /// space.  `None` where the grid has no point for a corner.
    pub open spec fn framed(self, a: Vector2, b: Vector2) -> Option<Seq<Note>> {
        match (self.grid.positioned(a), self.grid.positioned(b)) {
            (Some(va), Some(vb)) => Some(
                self.score.framed(normalized(va, vb).0, normalized(va, vb).1),
            ),
            _ => None,
        }
    }

    /// The score after the brick `brick` is let go: with the brick as a new
    /// note at the end where it spans a tick, without the notes under it
    /// where it is a click, and as it was otherwise.
    pub open spec fn score_with(self, brick: Brick) -> ScoreView {
        if brick.spans_a_tick() {
            self.score.with_note(brick.committed())
        } else if brick.is_click() {
            self.score.erased(brick.time.0, brick.pitch)
        } else {
            self.score
        }
    }

    /// The left button goes up, which ends what it began.  A marked point
    /// sets the play position to the time under it, where the grid has one,
    /// and the editor is idle.  A frame selects the notes that it overlaps;
    /// where there is none, or the grid has no point for a corner, the
    /// editor is idle.  A brick becomes a note or erases the notes under it,
    /// and the editor is idle.
    pub open spec fn released(self) -> PianoRollView {
        match self.state {
            StateView::PointSelected(point) => PianoRollView {
                play_pos: match self.grid.timed(point.x) {
                    Some(time) => time,
                    None => self.play_pos,
                },
                state: StateView::Idle,
                ..self
            },
            StateView::SelectFrame(a, b) => match self.framed(a, b) {
                Some(notes) => if notes.len() == 0 {
                    self.with_state(StateView::Idle)
                } else {
                    self.with_state(StateView::NotesSelected(notes))
                },
                None => self.with_state(StateView::Idle),
            },
            StateView::Drawing(brick) => PianoRollView {
                score: self.score_with(brick),
                state: StateView::Idle,
                ..self
            },
            _ => self,
        }
    }

    /// A key goes down.  Two keys pick the tool.  The transport key starts
    /// playback from the play position, with the tick before it as the last
    /// one sent, or stops it.  The delete key removes the selected notes.
    /// Every other key does nothing.
    pub open spec fn key_pressed(self, scancode: u32) -> (PianoRollView, Seq<Command>) {
        if scancode == KEY_ARROW {
            (PianoRollView { tool: Tool::Arrow, ..self }, Seq::empty())
        } else if scancode == KEY_PENCIL {
            (PianoRollView { tool: Tool::Pencil, ..self }, Seq::empty())
        } else if scancode == KEY_TRANSPORT {
            if self.state is Playing {
                (self.with_state(StateView::Idle), seq![Command::Stop, Command::UnsubTime])
            } else {
                (
                    self.with_state(
                        StateView::Playing(self.play_pos, self.score.tick_before(self.play_pos)),
                    ),
                    seq![Command::SubTime],
                )
            }
        } else if scancode == KEY_DELETE {
            match self.state {
                StateView::NotesSelected(selected) => (
                    PianoRollView {
                        score: self.score.without(selected),
                        state: StateView::Idle,
                        ..self
                    },
                    Seq::empty(),
                ),
                _ => (self, Seq::empty()),
            }
        } else {
            (self, Seq::empty())
        }
    }

    /// Where playback is once it has run for `seconds` whole seconds and
    /// `nanos` nanoseconds, at one measure a second.  `None` where the
    /// position does not fit.
    pub open spec fn position_after(self, seconds: u64, nanos: u32) -> Option<Fixed> {
        if fits(seconds_of(seconds, nanos)) && fits(self.play_pos + seconds_of(seconds, nanos)) {
            Some((self.play_pos + seconds_of(seconds, nanos)) as i64)
        } else {
            None
        }
    }

    /// Playback has run for `seconds` whole seconds and `nanos` nanoseconds.
    /// While playing, the position moves on; where it has reached a later
    /// tick than the last one sent, the events of that tick are sent, in
    /// score order, and it becomes the last one sent.
    pub open spec fn ticked(self, seconds: u64, nanos: u32) -> (PianoRollView, Seq<Command>) {
        match self.state {
            StateView::Playing(_, last) => match self.position_after(seconds, nanos) {
                Some(pos) => {
                    let tick = self.score.tick_at(pos);
                    if tick > last {
                        (
                            self.with_state(StateView::Playing(pos, tick)),
                            self.score.events_at(tick),
                        )
                    } else {
                        (self.with_state(StateView::Playing(pos, last)), Seq::empty())
                    }
                },
                None => (self, Seq::empty()),
            },
            _ => (self, Seq::empty()),
        }
    }

    /// The wheel turns with the pointer at pixel `position`: with the
    /// modifier held it zooms the pitch axis, else the time axis.
    pub open spec fn wheeled(self, position: Vector2, ctrl: bool, factor: Fixed) -> PianoRollView {
        if ctrl {
            self.with_grid(self.grid.zoomed_y(position.y, factor))
        } else {
            self.with_grid(self.grid.zoomed_x(position.x, factor))
        }
    }

    /// The viewport has a new size.
    pub open spec fn resized(self, width: Fixed, height: Fixed) -> PianoRollView {
        self.with_grid(Grid { size: Vector2 { x: width, y: height }, ..self.grid })
    }

    /// The editor and the commands that it sends after one event.
    pub open spec fn step(self, msg: Msg) -> (PianoRollView, Seq<Command>) {
        match msg {
            Msg::MouseWheel { position, ctrl, factor } => (
                self.wheeled(position, ctrl, factor),
                Seq::empty(),
            ),
            Msg::LeftPressed { position } => (self.pressed(position), Seq::empty()),
            Msg::LeftReleased { position } => (self.released(), Seq::empty()),
            Msg::LeftDrag { position } => (self.dragged(position), Seq::empty()),
            Msg::RightDrag { vector } => (
                self.with_grid(self.grid.panned(vector)),
                Seq::empty(),
            ),
            Msg::Time { seconds, nanos } => self.ticked(seconds, nanos),
            Msg::KeyPressed { scancode } => self.key_pressed(scancode),
            Msg::Resized { width, height } => (self.resized(width, height), Seq::empty()),
        }
    }
}

/// The editor.
pub struct PianoRoll {
    state: State,
    tool: Tool,
    grid: Grid,
    play_pos: Fixed,
    score: Score,
}

impl View for PianoRoll {
    type V = PianoRollView;

    closed spec fn view(&self) -> PianoRollView {
        PianoRollView {
            state: self.state@,
            tool: self.tool,
            grid: self.grid,
            play_pos: self.play_pos,
            score: self.score@,
        }
    }
}

impl PianoRoll {
    pub fn new() -> (pr: PianoRoll)
        ensures
            pr@ == PianoRollView::initial(),
            pr@.wf(),
    {
        let score = Score::new();
        let grid = Grid::new(
            Vector2::new(1024 * ONE, 768 * ONE),
            (Vector2::new(-(ONE / 4), 31 * ONE), Vector2::new(12 * ONE, 155 * ONE)),
        );
        PianoRoll { state: State::Idle, tool: Tool::Arrow, play_pos: 0, score, grid }
    }

    pub fn state(&self) -> (s: &State)
        ensures
            s@ == self@.state,
    {
        &self.state
    }

    pub fn tool(&self) -> (t: Tool)
        ensures
            t == self@.tool,
    {
        self.tool
    }

    pub fn grid(&self) -> (g: &Grid)
        ensures
            *g == self@.grid,
    {
        &self.grid
    }

    pub fn play_pos(&self) -> (p: Fixed)
        ensures
            p == self@.play_pos,
    {
        self.play_pos
    }

    pub fn score(&self) -> (s: &Score)
        ensures
            s@ == self@.score,
    {
        &self.score
    }

    fn is_idle(&self) -> (r: bool)
        ensures
            r == (self@.state is Idle),
    {
        match self.state {
            State::Idle => true,
            _ => false,
        }
    }

    /// The arrow goes down on an idle editor: the point is marked.  With the
    /// pencil, or in any other state, nothing happens.
    pub fn st_select_point(&mut self, position: Vector2)
        ensures
            final(self)@ == (if old(self)@.state is Idle && old(self)@.tool is Arrow {
                old(self)@.pressed(position)
            } else {
                old(self)@
            }),
            old(self)@.wf() ==> final(self)@.wf(),
    {
        proof {
            if self@.wf() {
                lemma_step_preserves_wf(self@, Msg::LeftPressed { position });
            }
        }
        if self.is_idle() {
            match self.tool {
                Tool::Arrow => {
                    self.state = State::PointSelected(position);
                },
                Tool::Pencil => {},
            }
        }
    }

    /// The pencil goes down on an idle editor: a brick starts.  With the
    /// arrow, or in any other state, nothing happens.
    pub fn st_draw_brick(&mut self, position: Vector2)
        ensures
            final(self)@ == (if old(self)@.state is Idle && old(self)@.tool is Pencil {
                old(self)@.pressed(position)
            } else {
                old(self)@
            }),
            old(self)@.wf() ==> final(self)@.wf(),
    {
        proof {
            if self@.wf() {
                lemma_step_preserves_wf(self@, Msg::LeftPressed { position });
            }
        }
        if self.is_idle() {
            match self.tool {
                Tool::Pencil => {
                    match self.grid.view_position(position) {
                        Some(view_pos) => {
                            let ticks: i128 = mul_wide(view_pos.x, self.score.measure_ticks as i64);
                            proof {
                                lemma_product_bound(
                                    view_pos.x as int,
                                    self.score.measure_ticks as int,
                                    0x8000_0000_0000_0000,
                                    0xffff,
                                );
                            }
                            let pair: i128 = nearest(ticks, 131072);
                            match narrow(pair * 131072) {
                                Some(time) => {
                                    self.state = State::Drawing(
                                        Brick { time: (time, time), pitch: view_pos.y },
                                    );
                                },
                                None => {},
                            }
                        },
                        None => {},
                    }
                },
                Tool::Arrow => {},
            }
        }
    }

    /// The button goes up over a marked point: the play position is the
    /// time under the point, and the editor is idle.  In any other state
    /// nothing happens.
    pub fn st_set_time(&mut self)
        ensures
            final(self)@ == (if old(self)@.state is PointSelected {
                old(self)@.released()
            } else {
                old(self)@
            }),
            old(self)@.wf() ==> final(self)@.wf(),
    {
        proof {
            if self@.wf() {
                lemma_step_preserves_wf(self@, Msg::LeftReleased { position: Vector2 { x: 0, y: 0 } });
            }
        }
        if let State::PointSelected(point) = self.state {
            match self.grid.view_time(point.x) {
                Some(time) => {
                    self.play_pos = time;
                },
                None => {},
            }
            self.state = State::Idle;
        }
    }

    /// The button goes up over a frame: the notes that the frame overlaps
    /// are selected, or the editor is idle.  In any other state nothing
    /// happens.
    pub fn st_select_framed(&mut self)
        ensures
            final(self)@ == (if old(self)@.state is SelectFrame {
                old(self)@.released()
            } else {
                old(self)@
            }),
            old(self)@.wf() ==> final(self)@.wf(),
    {
        proof {
            if self@.wf() {
                lemma_step_preserves_wf(self@, Msg::LeftReleased { position: Vector2 { x: 0, y: 0 } });
            }
        }
        if let State::SelectFrame(a, b) = self.state {
            match (self.grid.view_position(a), self.grid.view_position(b)) {
                (Some(va), Some(vb)) => {
                    let (v0, v1) = normalize_square(va, vb);
                    let framed: Vec<Note> = self.score.framed(v0, v1);
                    if framed.len() == 0 {
                        self.state = State::Idle;
                    } else {
                        self.state = State::NotesSelected(framed);
                    }
                },
                _ => {
                    self.state = State::Idle;
                },
            }
        }
    }

    /// The button goes up over a brick: the brick becomes a note or erases
    /// the notes under it, and the editor is idle.  In any other state
    /// nothing happens.
    pub fn st_create_brick(&mut self)
        ensures
            final(self)@ == (if old(self)@.state is Drawing {
                old(self)@.released()
            } else {
                old(self)@
            }),
            old(self)@.wf() ==> final(self)@.wf(),
    {
        proof {
            if self@.wf() {
                lemma_step_preserves_wf(self@, Msg::LeftReleased { position: Vector2 { x: 0, y: 0 } });
            }
        }
        if let State::Drawing(brick) = self.state {
            if brick.has_length() {
                self.score.add(Note::from(brick));
            } else if brick.time.0 == brick.time.1 {
                self.score.erase(brick.time.0, brick.pitch);
            }
            self.state = State::Idle;
        }
    }

    /// The left button goes down at pixel `position`.
    pub fn on_left_press(&mut self, position: Vector2)
        ensures
            final(self)@ == old(self)@.pressed(position),
            old(self)@.wf() ==> final(self)@.wf(),
    {
        proof {
            if self@.wf() {
                lemma_step_preserves_wf(self@, Msg::LeftPressed { position });
            }
        }
        self.st_select_point(position);
        self.st_draw_brick(position);
    }

    /// The pointer moves to pixel `position` with the left button held.
    pub fn on_left_drag(&mut self, position: Vector2)
        ensures
            final(self)@ == old(self)@.dragged(position),
            old(self)@.wf() ==> final(self)@.wf(),
    {
        proof {
            if self@.wf() {
                lemma_step_preserves_wf(self@, Msg::LeftDrag { position });
            }
        }
        match self.state {
            State::Drawing(brick) => {
                match self.grid.view_position(position) {
                    Some(view_pos) => {
                        match narrow(mul_wide(view_pos.x, self.score.measure_ticks as i64)) {
                            Some(end) => {
                                self.state = State::Drawing(
                                    Brick { time: (brick.time.0, end), pitch: brick.pitch },
                                );
                            },
                            None => {},
                        }
                    },
                    None => {},
                }
            },
            State::PointSelected(point) => {
                self.state = State::SelectFrame(point, position);
            },
            State::SelectFrame(start, _) => {
                self.state = State::SelectFrame(start, position);
            },
            _ => {},
        }
    }

    /// The left button goes up.
    pub fn on_left_release(&mut self)
        ensures
            final(self)@ == old(self)@.released(),
            old(self)@.wf() ==> final(self)@.wf(),
    {
        proof {
            if self@.wf() {
                lemma_step_preserves_wf(self@, Msg::LeftReleased { position: Vector2 { x: 0, y: 0 } });
            }
        }
        self.st_set_time();
        self.st_select_framed();
        self.st_create_brick();
    }

    /// Playback has run for `seconds` whole seconds and `nanos`
    /// nanoseconds: what is due is appended to `cmds`.
    pub fn on_time(&mut self, seconds: u64, nanos: u32, cmds: &mut Vec<Command>)
        ensures
            final(self)@ == old(self)@.ticked(seconds, nanos).0,
            final(cmds)@ == old(cmds)@ + old(self)@.ticked(seconds, nanos).1,
            old(self)@.wf() ==> final(self)@.wf(),
    {
        proof {
            if self@.wf() {
                lemma_step_preserves_wf(self@, Msg::Time { seconds, nanos });
            }
        }
        if let State::Playing(_, last) = self.state {
            let elapsed: Fixed = match duration_seconds(seconds, nanos) {
                Some(e) => e,
                None => { return ; },
            };
            let pos: Fixed = match narrow(self.play_pos as i128 + elapsed as i128) {
                Some(p) => p,
                None => { return ; },
            };
            let tick: i16 = self.score.tick_at(pos);
            if tick > last {
                self.score.emit(tick, cmds);
                self.state = State::Playing(pos, tick);
            } else {
                self.state = State::Playing(pos, last);
            }
        }
    }

    /// The key with the scancode `key` goes down: what is to be sent is
    /// appended to `cmds`.
    pub fn on_key_press(&mut self, key: u32, cmds: &mut Vec<Command>)
        ensures
            final(self)@ == old(self)@.key_pressed(key).0,
            final(cmds)@ == old(cmds)@ + old(self)@.key_pressed(key).1,
            old(self)@.wf() ==> final(self)@.wf(),
    {
        proof {
            if self@.wf() {
                lemma_step_preserves_wf(self@, Msg::KeyPressed { scancode: key });
            }
        }
        if key == KEY_ARROW {
            self.tool = Tool::Arrow;
        } else if key == KEY_PENCIL {
            self.tool = Tool::Pencil;
        } else if key == KEY_TRANSPORT {
            if let State::Playing(_, _) = self.state {
                cmds.push(Command::Stop);
                cmds.push(Command::UnsubTime);
                self.state = State::Idle;
            } else {
                self.state = State::Playing(self.play_pos, self.score.tick_before(self.play_pos));
                cmds.push(Command::SubTime);
            }
        } else if key == KEY_DELETE {
            if let State::NotesSelected(selected) = &self.state {
                self.score.remove(selected);
                self.state = State::Idle;
            }
        }
    }

    /// Takes one event: moves to the next state, edits the score or the
    /// view, and appends to `cmds` what is to be sent.
    pub fn model(&mut self, msg: Msg, cmds: &mut Vec<Command>)
        ensures
            final(self)@ == old(self)@.step(msg).0,
            final(cmds)@ == old(cmds)@ + old(self)@.step(msg).1,
            old(self)@.wf() ==> final(self)@.wf(),
    {
        proof {
            if self@.wf() {
                lemma_step_preserves_wf(self@, msg);
            }
        }
        match msg {
            Msg::MouseWheel { position, ctrl, factor } => {
                if ctrl {
                    self.grid.scale_y(position.y, factor);
                } else {
                    self.grid.scale_x(position.x, factor);
                }
            },
            Msg::LeftPressed { position } => {
                self.on_left_press(position);
            },
            Msg::LeftReleased { position } => {
                self.on_left_release();
            },
            Msg::LeftDrag { position } => {
                self.on_left_drag(position);
            },
            Msg::RightDrag { vector } => {
                self.grid.pan(vector);
            },
            Msg::Time { seconds, nanos } => {
                self.on_time(seconds, nanos, cmds);
            },
            Msg::KeyPressed { scancode } => {
                self.on_key_press(scancode, cmds);
            },
            Msg::Resized { width, height } => {
                self.grid.size = Vector2::new(width, height);
            },
        }
    }
}

} // verus!
