//! What the editor looks like: each part of it as rectangles in pixels.

use vstd::prelude::*;
use crate::fixed::{
    ceil, clamp, divides, fits, floor, floor_div, lemma_floor_div_range, lemma_product_bound,
    mul_div_wide, mul_wide, narrow, saturate, Fixed, HALF, ONE,
};
use crate::geometry::{normalize_square, normalized, Vector2};
use crate::pianoroll::{PianoRoll, PianoRollView, State, StateView};
use crate::renderer::{
    lemma_with_rects_add, lemma_with_rects_push, lemma_with_rects_wf, Mesh, MeshView, Rect, Scene,
};
use crate::score::{outside, Note, Score};
use crate::ui::{Color, Grid, Style, STEPS_PER_OCTAVE};

verus! {

/// The number of pixels that show one unit of musical space, where `size`
/// pixels show the interval from `lo` to `hi`.  `None` where the interval is
/// empty or the number does not fit.
pub open spec fn aspect_axis(size: int, lo: int, hi: int) -> Option<int> {
    if hi > lo && fits((size * ONE) / (hi - lo)) {
        Some((size * ONE) / (hi - lo))
    } else {
        None
    }
}

/// The pixel that shows the coordinate `c`, where the pixel 0 shows `lo`
/// and one unit takes `aspect` pixels; rounded down, and brought into the
/// range of `Fixed`.
pub open spec fn pixel_axis(c: int, lo: int, aspect: int) -> Fixed {
    clamp(((c - lo) * aspect) / (ONE as int))
}

/// As `aspect_axis`.
pub fn aspect_of(size: Fixed, lo: Fixed, hi: Fixed) -> (r: Option<Fixed>)
    ensures
        r == (match aspect_axis(size as int, lo as int, hi as int) {
            Some(a) => Some(a as i64),
            None => None,
        }),
{
    if hi <= lo {
        return None;
    }
    let span: i128 = hi as i128 - lo as i128;
    narrow(floor_div(mul_wide(size, ONE), span))
}

/// As `pixel_axis`.
pub fn pixel_of(c: Fixed, lo: Fixed, aspect: Fixed) -> (r: Fixed)
    ensures
        r == pixel_axis(c as int, lo as int, aspect as int),
{
    saturate(mul_div_wide(c as i128 - lo as i128, aspect, ONE))
}

/// Whether the pitch `line` is a step of the scale that the grid marks.
pub open spec fn in_scale(line: int) -> bool {
    line >= 0 && {
        let degree = line % (STEPS_PER_OCTAVE as int);
        degree == 5 || degree == 10 || degree == 13 || degree == 18 || degree == 23 || degree
            == 28
    }
}

impl Grid {
    /// The line of the pitch `line`: across the viewport, thick and in the
    /// colour of an octave where it starts one, else thin, in the colour of
    /// the scale where it is a step of it.
    pub open spec fn pitch_line(self, aspect: Fixed, line: int) -> Rect {
        let pos = pixel_axis(line * ONE, self.view.0.y as int, aspect as int);
        let octave = line % (STEPS_PER_OCTAVE as int) == 0;
        let width = if octave {
            self.thick_width
        } else {
            self.thin_width
        };
        Rect {
            from: Vector2 { x: 0, y: clamp(pos - width / 2) },
            to: Vector2 { x: self.size.x, y: clamp(pos + width / 2) },
            color: if octave {
                self.style.base1_of()
            } else if in_scale(line) {
                self.style.blue_of()
            } else {
                self.style.base2_of()
            },
        }
    }

    /// The lines of all whole pitches in the window, from the lowest up, on
    /// a screen of `size` pixels.
    pub open spec fn pitch_lines(self, size: Vector2) -> Seq<Rect> {
        match aspect_axis(size.y as int, self.view.0.y as int, self.view.1.y as int) {
            Some(aspect) => {
                let first = ceil(self.view.0.y as int);
                let last = floor(self.view.1.y as int);
                if first <= last {
                    Seq::new(
                        (last - first + 1) as nat,
                        |i: int| self.pitch_line(aspect as i64, first + i),
                    )
                } else {
                    Seq::empty()
                }
            },
            None => Seq::empty(),
        }
    }

    /// The line of the beat `line`, counted from time 0: down the viewport,
    /// thick where the beat starts a measure, else thin.
    pub open spec fn beat_line(self, aspect: Fixed, line: int) -> Rect {
        let time = clamp((line * ONE) / (self.beats as int));
        let pos = pixel_axis(time as int, self.view.0.x as int, aspect as int);
        let measure = line % (self.beats as int) == 0;
        let width = if measure {
            self.thick_width
        } else {
            self.thin_width
        };
        Rect {
            from: Vector2 { x: clamp(pos - width / 2), y: 0 },
            to: Vector2 { x: clamp(pos + width / 2), y: self.size.y },
            color: if measure {
                self.style.base2_of()
            } else {
                self.style.base3_of()
            },
        }
    }

    /// The lines of all beats in the window, from the earliest on, on a
    /// screen of `size` pixels.
    pub open spec fn beat_lines(self, size: Vector2) -> Seq<Rect> {
        match aspect_axis(size.x as int, self.view.0.x as int, self.view.1.x as int) {
            Some(aspect) => {
                let first = ceil(self.view.0.x * self.beats);
                let last = floor(self.view.1.x * self.beats);
                if self.beats > 0 && first <= last {
                    Seq::new(
                        (last - first + 1) as nat,
                        |i: int| self.beat_line(aspect as i64, first + i),
                    )
                } else {
                    Seq::empty()
                }
            },
            None => Seq::empty(),
        }
    }

    /// The grid as rectangles: the pitch lines, then the beat lines.
    pub open spec fn lines(self, size: Vector2) -> Seq<Rect> {
        self.pitch_lines(size) + self.beat_lines(size)
    }

    /// As `pitch_line`.
    fn draw_pitch_line(&self, aspect: Fixed, line: i64, mesh: &mut Mesh)
        requires
            -0x8000_0000_0000 <= line < 0x8000_0000_0000,
        ensures
            final(mesh)@ == old(mesh)@.drawn(self.pitch_line(aspect, line as int)),
            old(mesh)@.wf() ==> final(mesh)@.wf(),
    {
        let pos: Fixed = pixel_of(saturate(mul_wide(line, ONE)), self.view.0.y, aspect);
        let octave: bool = divides(STEPS_PER_OCTAVE, line);
        let width: Fixed = if octave { self.thick_width } else { self.thin_width };
        let half: i128 = floor_div(width as i128, 2);
        let color = if octave {
            self.style.base1()
        } else if line >= 0 && is_scale_degree(line % STEPS_PER_OCTAVE) {
            self.style.blue()
        } else {
            self.style.base2()
        };
        mesh.render_rect(
            Vector2 { x: 0, y: saturate(pos as i128 - half) },
            Vector2 { x: self.size.x, y: saturate(pos as i128 + half) },
            color,
        );
    }

    /// As `pitch_lines`.
    fn draw_pitch_lines(&self, size: Vector2, mesh: &mut Mesh)
        ensures
            final(mesh)@ == old(mesh)@.with_rects(self.pitch_lines(size)),
            old(mesh)@.wf() ==> final(mesh)@.wf(),
    {
        let ghost before = mesh@;
        let ghost lines = self.pitch_lines(size);
        match aspect_of(size.y, self.view.0.y, self.view.1.y) {
            Some(aspect) => {
                let first: i64 = (-floor_div(-(self.view.0.y as i128), ONE as i128)) as i64;
                let last: i64 = floor_div(self.view.1.y as i128, ONE as i128) as i64;
                let mut line: i64 = first;
                while line <= last
                    invariant
                        -0x8000_0000_0000 <= first <= line,
                        line <= last + 1 || line == first,
                        last < 0x8000_0000_0000,
                        first == ceil(self.view.0.y as int),
                        last == floor(self.view.1.y as int),
                        lines == self.pitch_lines(size),
                        aspect_axis(size.y as int, self.view.0.y as int, self.view.1.y as int)
                            == Some(aspect as int),
                        mesh@ == before.with_rects(lines.take(line - first)),
                        before.wf() ==> mesh@.wf(),
                    decreases last - line + 1,
                {
                    proof {
                        lemma_with_rects_push(
                            before,
                            lines.take(line - first),
                            lines[line - first],
                        );
                        assert(lines.take(line - first + 1) =~= lines.take(line - first).push(
                            lines[line - first],
                        ));
                    }
                    self.draw_pitch_line(aspect, line, mesh);
                    line += 1;
                }
                proof {
                    assert(lines.take(lines.len() as int) =~= lines);
                }
            },
            None => {},
        }
    }

    /// As `beat_line`.
    fn draw_beat_line(&self, aspect: Fixed, line: i64, mesh: &mut Mesh)
        requires
            self.beats > 0,
        ensures
            final(mesh)@ == old(mesh)@.drawn(self.beat_line(aspect, line as int)),
            old(mesh)@.wf() ==> final(mesh)@.wf(),
    {
        let time: Fixed = saturate(floor_div(mul_wide(line, ONE), self.beats as i128));
        let pos: Fixed = pixel_of(time, self.view.0.x, aspect);
        let measure: bool = divides(self.beats as i64, line);
        let width: Fixed = if measure { self.thick_width } else { self.thin_width };
        let half: i128 = floor_div(width as i128, 2);
        let color = if measure { self.style.base2() } else { self.style.base3() };
        mesh.render_rect(
            Vector2 { x: saturate(pos as i128 - half), y: 0 },
            Vector2 { x: saturate(pos as i128 + half), y: self.size.y },
            color,
        );
    }

    /// As `beat_lines`.
    fn draw_beat_lines(&self, size: Vector2, mesh: &mut Mesh)
        ensures
            final(mesh)@ == old(mesh)@.with_rects(self.beat_lines(size)),
            old(mesh)@.wf() ==> final(mesh)@.wf(),
    {
        let ghost before = mesh@;
        let ghost lines = self.beat_lines(size);
        if self.beats == 0 {
            return ;
        }
        match aspect_of(size.x, self.view.0.x, self.view.1.x) {
            Some(aspect) => {
                proof {
                    lemma_product_bound(
                        self.view.0.x as int,
                        self.beats as int,
                        0x8000_0000_0000_0000,
                        0xff,
                    );
                    lemma_product_bound(
                        self.view.1.x as int,
                        self.beats as int,
                        0x8000_0000_0000_0000,
                        0xff,
                    );
                }
                let low: i128 = mul_wide(self.view.0.x, self.beats as i64);
                let high: i128 = mul_wide(self.view.1.x, self.beats as i64);
                let first: i64 = (-floor_div(-low, ONE as i128)) as i64;
                let last: i64 = floor_div(high, ONE as i128) as i64;
                let mut line: i64 = first;
                while line <= last
                    invariant
                        -0x80_0000_0000_0000 <= first <= line,
                        line <= last + 1 || line == first,
                        last < 0x80_0000_0000_0000,
                        self.beats > 0,
                        first == ceil(self.view.0.x * self.beats),
                        last == floor(self.view.1.x * self.beats),
                        lines == self.beat_lines(size),
                        aspect_axis(size.x as int, self.view.0.x as int, self.view.1.x as int)
                            == Some(aspect as int),
                        mesh@ == before.with_rects(lines.take(line - first)),
                        before.wf() ==> mesh@.wf(),
                    decreases last - line + 1,
                {
                    proof {
                        lemma_with_rects_push(
                            before,
                            lines.take(line - first),
                            lines[line - first],
                        );
                        assert(lines.take(line - first + 1) =~= lines.take(line - first).push(
                            lines[line - first],
                        ));
                    }
                    self.draw_beat_line(aspect, line, mesh);
                    line += 1;
                }
                proof {
                    assert(lines.take(lines.len() as int) =~= lines);
                }
            },
            None => {},
        }
    }

    /// Draws the grid for a screen of `size` pixels into `mesh`: a line for
    /// each whole pitch and one for each beat.  What the mesh has no room
    /// for is left out.
    pub fn draw(&self, size: Vector2, mesh: &mut Mesh)
        ensures
            final(mesh)@ == old(mesh)@.with_rects(self.lines(size)),
            old(mesh)@.wf() ==> final(mesh)@.wf(),
    {
        self.draw_pitch_lines(size, mesh);
        self.draw_beat_lines(size, mesh);
        proof {
            lemma_with_rects_add(old(mesh)@, self.pitch_lines(size), self.beat_lines(size));
        }
    }
}

/// Whether `degree` is one of the steps of the scale within an octave.
fn is_scale_degree(degree: i64) -> (r: bool)
    ensures
        r == (degree == 5 || degree == 10 || degree == 13 || degree == 18 || degree == 23
            || degree == 28),
{
    degree == 5 || degree == 10 || degree == 13 || degree == 18 || degree == 23 || degree == 28
}

/// The two rectangles of a note, border first: from the pixel of its start
/// to the pixel of its end, as high as 1.4 steps, and the same again half a
/// pixel smaller on every side.
pub open spec fn note_rects(
    note: Note,
    view: (Vector2, Vector2),
    measure_ticks: u16,
    aspect: Vector2,
    border: Color,
    fill: Color,
) -> Seq<Rect> {
    let height = (aspect.y * 14) / 10;
    let x0 = pixel_axis(
        (note.time.0 * ONE) / (measure_ticks as int),
        view.0.x as int,
        aspect.x as int,
    );
    let x1 = pixel_axis(
        (note.time.1 * ONE) / (measure_ticks as int),
        view.0.x as int,
        aspect.x as int,
    );
    let y = pixel_axis(note.pitch * ONE, view.0.y as int, aspect.y as int);
    let y0 = clamp(y - height / 2);
    let y1 = clamp(y + height / 2);
    seq![
        Rect { from: Vector2 { x: x0, y: y0 }, to: Vector2 { x: x1, y: y1 }, color: border },
        Rect {
            from: Vector2 { x: clamp(x0 + HALF), y: clamp(y0 + HALF) },
            to: Vector2 { x: clamp(x1 - HALF), y: clamp(y1 - HALF) },
            color: fill,
        },
    ]
}

/// `note_rects` as a function of the note alone.
pub open spec fn rects_of(
    view: (Vector2, Vector2),
    measure_ticks: u16,
    aspect: Vector2,
    border: Color,
    fill: Color,
) -> spec_fn(Note) -> Seq<Rect> {
    |note: Note| note_rects(note, view, measure_ticks, aspect, border, fill)
}

/// The colour that a note is filled with.
pub open spec fn fill_of(style: Style, selected: bool) -> Color {
    if selected {
        style.yellow_of()
    } else {
        style.orange_of()
    }
}

/// The rectangles of `notes`, note by note, on a screen of `size` pixels
/// that shows the window `view`.  There are none where the window is empty
/// on an axis or a measure has no ticks.
pub open spec fn notes_rects(
    notes: Seq<Note>,
    view: (Vector2, Vector2),
    measure_ticks: u16,
    style: Style,
    selected: bool,
    size: Vector2,
) -> Seq<Rect> {
    match (
        aspect_axis(size.x as int, view.0.x as int, view.1.x as int),
        aspect_axis(size.y as int, view.0.y as int, view.1.y as int),
    ) {
        (Some(ax), Some(ay)) => if measure_ticks > 0 {
            notes.flat_map(
                rects_of(
                    view,
                    measure_ticks,
                    Vector2 { x: ax as i64, y: ay as i64 },
                    style.base2_of(),
                    fill_of(style, selected),
                ),
            )
        } else {
            Seq::empty()
        },
        _ => Seq::empty(),
    }
}

/// Notes to draw.
pub struct NoteView {
    pub notes: Vec<Note>,
    pub view: (Vector2, Vector2),
    pub measure_ticks: u16,
    pub style: Style,
    /// Whether the notes are drawn as selected ones.
    pub selected: bool,
}

impl NoteView {
    /// The notes as rectangles.
    pub open spec fn rects(&self, size: Vector2) -> Seq<Rect> {
        notes_rects(self.notes@, self.view, self.measure_ticks, self.style, self.selected, size)
    }

    /// Draws one note.
    fn draw_note(&self, note: Note, aspect: Vector2, mesh: &mut Mesh)
        requires
            self.measure_ticks > 0,
        ensures
            final(mesh)@ == old(mesh)@.with_rects(
                note_rects(
                    note,
                    self.view,
                    self.measure_ticks,
                    aspect,
                    self.style.base2_of(),
                    fill_of(self.style, self.selected),
                ),
            ),
            old(mesh)@.wf() ==> final(mesh)@.wf(),
    {
        let ticks: i128 = self.measure_ticks as i128;
        let height: i128 = floor_div((aspect.y as i128) * 14, 10);
        let start: i128 = floor_div(mul_wide(note.time.0 as i64, ONE), ticks);
        let end: i128 = floor_div(mul_wide(note.time.1 as i64, ONE), ticks);
        proof {
            lemma_floor_div_range(note.time.0 * ONE, ticks as int);
            lemma_floor_div_range(note.time.1 * ONE, ticks as int);
            lemma_floor_div_range(aspect.y * 14, 10);
            lemma_floor_div_range(height as int, 2);
        }
        let x0: Fixed = pixel_of(start as i64, self.view.0.x, aspect.x);
        let x1: Fixed = pixel_of(end as i64, self.view.0.x, aspect.x);
        let y: Fixed = pixel_of((note.pitch as i64) * ONE, self.view.0.y, aspect.y);
        let half: i128 = floor_div(height, 2);
        let y0: Fixed = saturate(y as i128 - half);
        let y1: Fixed = saturate(y as i128 + half);
        let border = self.style.base2();
        let fill = if self.selected { self.style.yellow() } else { self.style.orange() };
        let ghost before = mesh@;
        let ghost outer = Rect {
            from: Vector2 { x: x0, y: y0 },
            to: Vector2 { x: x1, y: y1 },
            color: border,
        };
        let ghost inner = Rect {
            from: Vector2 { x: clamp(x0 + HALF), y: clamp(y0 + HALF) },
            to: Vector2 { x: clamp(x1 - HALF), y: clamp(y1 - HALF) },
            color: fill,
        };
        mesh.render_rect(Vector2 { x: x0, y: y0 }, Vector2 { x: x1, y: y1 }, border);
        let half_pixel: i128 = HALF as i128;
        mesh.render_rect(
            Vector2 { x: saturate(x0 as i128 + half_pixel), y: saturate(y0 as i128 + half_pixel) },
            Vector2 { x: saturate(x1 as i128 - half_pixel), y: saturate(y1 as i128 - half_pixel) },
            fill,
        );
        proof {
            lemma_with_rects_push(before, Seq::empty(), outer);
            lemma_with_rects_push(before, seq![outer], inner);
            assert(seq![outer, inner] =~= seq![outer].push(inner));
            assert(seq![outer] =~= Seq::<Rect>::empty().push(outer));
        }
    }

    /// Draws the notes for a screen of `size` pixels into `mesh`, each as a
    /// border with a filling.  What the mesh has no room for is left out.
    pub fn draw(&self, size: Vector2, mesh: &mut Mesh)
        ensures
            final(mesh)@ == old(mesh)@.with_rects(self.rects(size)),
            old(mesh)@.wf() ==> final(mesh)@.wf(),
    {
        let ghost before = mesh@;
        if self.measure_ticks == 0 {
            return ;
        }
        let ax: Option<Fixed> = aspect_of(size.x, self.view.0.x, self.view.1.x);
        let ay: Option<Fixed> = aspect_of(size.y, self.view.0.y, self.view.1.y);
        match (ax, ay) {
            (Some(ax), Some(ay)) => {
                let aspect = Vector2 { x: ax, y: ay };
                let ghost each = rects_of(
                    self.view,
                    self.measure_ticks,
                    aspect,
                    self.style.base2_of(),
                    fill_of(self.style, self.selected),
                );
                let mut i: usize = 0;
                while i < self.notes.len()
                    invariant
                        i <= self.notes.len(),
                        self.measure_ticks > 0,
                        each == rects_of(
                            self.view,
                            self.measure_ticks,
                            aspect,
                            self.style.base2_of(),
                            fill_of(self.style, self.selected),
                        ),
                        mesh@ == before.with_rects(self.notes@.take(i as int).flat_map(each)),
                        before.wf() ==> mesh@.wf(),
                    decreases self.notes.len() - i,
                {
                    proof {
                        self.notes@.lemma_flat_map_take_append(each, i as int);
                        lemma_with_rects_add(
                            before,
                            self.notes@.take(i as int).flat_map(each),
                            each(self.notes@[i as int]),
                        );
                    }
                    self.draw_note(self.notes[i], aspect, mesh);
                    i += 1;
                }
                proof {
                    self.notes@.lemma_take_len();
                }
            },
            _ => {},
        }
    }
}

/// The bar that shows where playback is.
pub struct PlayBar {
    /// Where it stands, as a part of the viewport's width.
    pub position: Fixed,
    pub style: Style,
}

impl PlayBar {
    /// The bar as a rectangle: two pixels wide and as high as the screen.
    pub open spec fn rects(&self, size: Vector2) -> Seq<Rect> {
        let pos = clamp((self.position * size.x) / (ONE as int));
        seq![
            Rect {
                from: Vector2 { x: clamp(pos - ONE), y: 0 },
                to: Vector2 { x: clamp(pos + ONE), y: size.y },
                color: self.style.violet_of(),
            },
        ]
    }

    /// Draws the bar for a screen of `size` pixels into `mesh`, where the
    /// mesh has room for it.
    pub fn draw(&self, size: Vector2, mesh: &mut Mesh)
        ensures
            final(mesh)@ == old(mesh)@.with_rects(self.rects(size)),
            old(mesh)@.wf() ==> final(mesh)@.wf(),
    {
        let pos: Fixed = saturate(mul_div_wide(self.position as i128, size.x, ONE));
        let ghost bar = self.rects(size)[0];
        proof {
            lemma_with_rects_push(mesh@, Seq::empty(), bar);
            assert(self.rects(size) =~= Seq::<Rect>::empty().push(bar));
        }
        mesh.render_rect(
            Vector2 { x: saturate(pos as i128 - ONE as i128), y: 0 },
            Vector2 { x: saturate(pos as i128 + ONE as i128), y: size.y },
            self.style.violet(),
        );
    }
}

/// The frame that a selection is dragged with.
pub struct Frame {
    pub from: Vector2,
    pub to: Vector2,
    pub style: Style,
}

impl Frame {
    /// The frame as a rectangle in the colour of a highlighted background.
    pub open spec fn rects(&self) -> Seq<Rect> {
        seq![Rect { from: self.from, to: self.to, color: self.style.base2_of() }]
    }

    /// Draws the frame into `mesh`, where the mesh has room for it.
    pub fn draw(&self, mesh: &mut Mesh)
        ensures
            final(mesh)@ == old(mesh)@.with_rects(self.rects()),
            old(mesh)@.wf() ==> final(mesh)@.wf(),
    {
        let ghost frame = self.rects()[0];
        proof {
            lemma_with_rects_push(mesh@, Seq::empty(), frame);
            assert(self.rects() =~= Seq::<Rect>::empty().push(frame));
        }
        mesh.render_rect(self.from, self.to, self.style.base2());
    }
}

/// A copy of `notes`.
fn copied(notes: &Vec<Note>) -> (copy: Vec<Note>)
    ensures
        copy@ == notes@,
{
    let mut copy: Vec<Note> = Vec::new();
    let mut i: usize = 0;
    while i < notes.len()
        invariant
            i <= notes.len(),
            copy@ == notes@.take(i as int),
        decreases notes.len() - i,
    {
        proof {
            notes@.lemma_take_succ_push(i as int);
        }
        copy.push(notes[i]);
        i += 1;
    }
    proof {
        notes@.lemma_take_len();
    }
    copy
}

impl PianoRollView {
    /// The notes that are drawn as plain ones: those of the score, with the
    /// brick that is being drawn as one more, and without the selected ones.
    pub open spec fn plain_notes(self) -> Seq<Note> {
        match self.state {
            StateView::Drawing(brick) => self.score.notes.push(brick.committed()),
            StateView::NotesSelected(selected) => self.score.notes.filter(outside(selected)),
            _ => self.score.notes,
        }
    }

    /// The selected notes as rectangles.
    pub open spec fn selected_rects(self, size: Vector2) -> Seq<Rect> {
        match self.state {
            StateView::NotesSelected(selected) => notes_rects(
                selected,
                self.grid.view,
                self.score.measure_ticks,
                self.grid.style,
                true,
                size,
            ),
            _ => Seq::empty(),
        }
    }

    /// The selection frame as a rectangle, while one is dragged.
    pub open spec fn frame_rects(self) -> Seq<Rect> {
        match self.state {
            StateView::SelectFrame(a, b) => seq![
                Rect {
                    from: normalized(a, b).0,
                    to: normalized(a, b).1,
                    color: self.grid.style.base2_of(),
                },
            ],
            _ => Seq::empty(),
        }
    }

    /// The time that the play bar shows: where playback is while it runs,
    /// else where it would start.
    pub open spec fn bar_time(self) -> Fixed {
        match self.state {
            StateView::Playing(position, _) => position,
            _ => self.play_pos,
        }
    }

    /// The play bar as a rectangle: at the part of the viewport's width
    /// that `bar_time` is of the window's span of time, rounded down.  There
    /// is none where that span is empty.
    pub open spec fn bar_rects(self, size: Vector2) -> Seq<Rect> {
        let lo = self.grid.view.0.x;
        let hi = self.grid.view.1.x;
        if hi > lo {
            (PlayBar {
                position: clamp(((self.bar_time() - lo) * ONE) / (hi - lo)),
                style: self.grid.style,
            }).rects(size)
        } else {
            Seq::empty()
        }
    }

    /// The editor as rectangles on a screen of `size` pixels, from the back
    /// to the front: the grid, the selected notes, the selection frame, the
    /// other notes, the play bar.
    pub open spec fn picture(self, size: Vector2) -> Seq<Rect> {
        self.grid.lines(size) + self.selected_rects(size) + self.frame_rects() + notes_rects(
            self.plain_notes(),
            self.grid.view,
            self.score.measure_ticks,
            self.grid.style,
            false,
            size,
        ) + self.bar_rects(size)
    }
}

impl PianoRoll {
    /// Draws the editor for a screen of `screen_size` pixels as one more
    /// mesh of `scene`.  What goes beyond the vertices that a mesh can hold
    /// is left out.
    pub fn draw(&self, screen_size: Vector2, scene: &mut Scene)
        ensures
            final(scene)@ == old(scene)@.push(
                MeshView::empty().with_rects(self@.picture(screen_size)),
            ),
            final(scene)@.last().wf(),
    {
        let grid: &Grid = self.grid();
        let score: &Score = self.score();
        let mut mesh = Mesh::new();
        let ghost blank = mesh@;
        let ghost pr = self@;

        grid.draw(screen_size, &mut mesh);
        let ghost first = pr.grid.lines(screen_size);

        match self.state() {
            State::NotesSelected(framed) => {
                let selected = NoteView {
                    notes: copied(framed),
                    view: grid.view,
                    measure_ticks: score.measure_ticks,
                    style: grid.style,
                    selected: true,
                };
                selected.draw(screen_size, &mut mesh);
            },
            _ => {
                assert(pr.selected_rects(screen_size) =~= Seq::<Rect>::empty());
            },
        }
        let ghost second = first + pr.selected_rects(screen_size);
        proof {
            lemma_with_rects_add(blank, first, pr.selected_rects(screen_size));
        }

        match self.state() {
            State::SelectFrame(v0, v1) => {
                let (from, to) = normalize_square(*v0, *v1);
                let frame = Frame { from, to, style: grid.style };
                frame.draw(&mut mesh);
            },
            _ => {},
        }
        let ghost third = second + pr.frame_rects();
        proof {
            lemma_with_rects_add(blank, second, pr.frame_rects());
        }

        let notes: Vec<Note> = match self.state() {
            State::Drawing(brick) => {
                let mut all = copied(&score.notes);
                all.push(Note::from(*brick));
                all
            },
            State::NotesSelected(framed) => score.unselected(framed),
            _ => copied(&score.notes),
        };
        let plain = NoteView {
            notes,
            view: grid.view,
            measure_ticks: score.measure_ticks,
            style: grid.style,
            selected: false,
        };
        plain.draw(screen_size, &mut mesh);
        let ghost fourth = third + plain.rects(screen_size);
        proof {
            lemma_with_rects_add(blank, third, plain.rects(screen_size));
        }

        let time: Fixed = match self.state() {
            State::Playing(position, _) => *position,
            _ => self.play_pos(),
        };
        if grid.view.1.x > grid.view.0.x {
            let span: i128 = grid.view.1.x as i128 - grid.view.0.x as i128;
            let offset: i128 = time as i128 - grid.view.0.x as i128;
            let bar = PlayBar {
                position: saturate(floor_div(offset * 65536, span)),
                style: grid.style,
            };
            bar.draw(screen_size, &mut mesh);
        }
        proof {
            lemma_with_rects_add(blank, fourth, pr.bar_rects(screen_size));
            lemma_with_rects_wf(blank, pr.picture(screen_size));
        }
        scene.add_mesh(mesh);
    }
}

} // verus!
