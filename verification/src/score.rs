//! Notes, the brick that is being drawn, and the score.

use vstd::prelude::*;
use crate::fixed::{
    clamp_i16, floor_div, mul_wide, nearest, round, round_to_i16, saturate_i16, Fixed, HALF, ONE,
};
use crate::geometry::{overlap, Vector2};
use crate::msg::Command;

verus! {

/// A note: it sounds on `channel` at `pitch` from tick `time.0` to tick
/// `time.1`.
#[derive(Debug, Clone, Copy, PartialEq, Eq)]
pub struct Note {
    pub channel: u16,
    pub time: (i16, i16),
    pub pitch: i16,
}

/// A note that is being drawn: the time where the button went down and the
/// time where the pointer is now, in ticks, and the pitch where the button
/// went down, in steps; the times are not sorted, and the free end and the
/// pitch are not rounded.
#[derive(Debug, Clone, Copy, PartialEq, Eq)]
pub struct Brick {
    pub time: (Fixed, Fixed),
    pub pitch: Fixed,
}

impl Brick {
    /// The note that this brick becomes: both ends rounded to the nearest
    /// tick, the earlier one first, the pitch rounded to the nearest step.
    pub open spec fn committed(self) -> Note {
        Note {
            channel: 0,
            time: if self.time.0 <= self.time.1 {
                (clamp_i16(round(self.time.0 as int)), clamp_i16(round(self.time.1 as int)))
            } else {
                (clamp_i16(round(self.time.1 as int)), clamp_i16(round(self.time.0 as int)))
            },
            pitch: clamp_i16(round(self.pitch as int)),
        }
    }

    /// Whether the two ends lie on different ticks.
    pub open spec fn spans_a_tick(self) -> bool {
        round(self.time.0 as int) != round(self.time.1 as int)
    }

    /// Whether the brick is a click: the pointer is where the button went
    /// down.
    pub open spec fn is_click(self) -> bool {
        self.time.0 == self.time.1
    }

    /// As `spans_a_tick`.
    pub fn has_length(&self) -> (r: bool)
        ensures
            r == self.spans_a_tick(),
    {
        nearest(self.time.0 as i128, ONE as i128) != nearest(self.time.1 as i128, ONE as i128)
    }
}

impl From<Brick> for Note {
    fn from(brick: Brick) -> (note: Note) {
        let pitch: i16 = round_to_i16(brick.pitch);
        let time: (i16, i16) = if brick.time.0 <= brick.time.1 {
            (round_to_i16(brick.time.0), round_to_i16(brick.time.1))
        } else {
            (round_to_i16(brick.time.1), round_to_i16(brick.time.0))
        };
        Note { channel: 0, time, pitch }
    }
}

impl vstd::std_specs::convert::FromSpecImpl<Brick> for Note {
    open spec fn obeys_from_spec() -> bool {
        true
    }

    open spec fn from_spec(brick: Brick) -> Note {
        brick.committed()
    }
}

impl Note {
    /// Whether the note does not end before it starts.
    pub open spec fn ordered(self) -> bool {
        self.time.0 <= self.time.1
    }

    /// Whether the box of this note overlaps the rectangle from `v0` to `v1`
    /// in musical space.  The box reaches from the note's start to its end,
    /// `measure_ticks` ticks being one measure, and half a step to either
    /// side of its pitch.  Both are compared in ticks on the time axis, so
    /// that nothing is rounded.
    pub open spec fn overlaps(self, v0: Vector2, v1: Vector2, measure_ticks: u16) -> bool {
        overlap(
            v0.x * measure_ticks,
            v0.y as int,
            v1.x * measure_ticks,
            v1.y as int,
            self.time.0 * ONE,
            self.pitch * ONE - HALF,
            self.time.1 * ONE,
            self.pitch * ONE + HALF,
        )
    }

    /// Whether a click at `time`, in ticks, and `pitch` hits this note: the
    /// pitch is less than half a step away and the time is not outside the
    /// note.
    pub open spec fn hit_by(self, time: Fixed, pitch: Fixed) -> bool {
        &&& -HALF < self.pitch * ONE - pitch < HALF
        &&& self.time.0 * ONE <= time <= self.time.1 * ONE
    }

    /// What the synthesizer is to do with this note when playback arrives at
    /// `tick`: switch it on where it starts there, and off where it ends
    /// there.
    pub open spec fn events_at(self, tick: i16) -> Seq<Command> {
        (if self.time.0 == tick {
            seq![Command::NoteOn(self)]
        } else {
            Seq::<Command>::empty()
        }) + (if self.time.1 == tick {
            seq![Command::NoteOff(self)]
        } else {
            Seq::<Command>::empty()
        })
    }

    /// Whether two notes are the same in every field.
    pub fn same(&self, other: &Note) -> (r: bool)
        ensures
            r == (*self == *other),
    {
        self.channel == other.channel && self.time.0 == other.time.0 && self.time.1
            == other.time.1 && self.pitch == other.pitch
    }

    /// As `overlaps`.
    pub fn is_framed(&self, v0: Vector2, v1: Vector2, measure_ticks: u16) -> (r: bool)
        ensures
            r == self.overlaps(v0, v1, measure_ticks),
    {
        let left: i128 = mul_wide(v0.x, measure_ticks as i64);
        let right: i128 = mul_wide(v1.x, measure_ticks as i64);
        let start: i128 = mul_wide(self.time.0 as i64, ONE);
        let end: i128 = mul_wide(self.time.1 as i64, ONE);
        let centre: i128 = mul_wide(self.pitch as i64, ONE);
        left < end && right > start && (v0.y as i128) < centre + (HALF as i128) && (v1.y as i128)
            > centre - (HALF as i128)
    }

    /// As `hit_by`.
    pub fn is_hit(&self, time: Fixed, pitch: Fixed) -> (r: bool)
        ensures
            r == self.hit_by(time, pitch),
    {
        let off: i128 = mul_wide(self.pitch as i64, ONE) - (pitch as i128);
        let start: i128 = mul_wide(self.time.0 as i64, ONE);
        let end: i128 = mul_wide(self.time.1 as i64, ONE);
        -(HALF as i128) < off && off < (HALF as i128) && start <= (time as i128) && (time as i128)
            <= end
    }
}

/// The notes that overlap the rectangle from `v0` to `v1`.
pub open spec fn framed_by(v0: Vector2, v1: Vector2, measure_ticks: u16) -> spec_fn(Note) -> bool {
    |n: Note| n.overlaps(v0, v1, measure_ticks)
}

/// The notes that a click at `time` and `pitch` misses.
pub open spec fn missed_by(time: Fixed, pitch: Fixed) -> spec_fn(Note) -> bool {
    |n: Note| !n.hit_by(time, pitch)
}

/// The notes that are among `selected`.
pub open spec fn among(selected: Seq<Note>) -> spec_fn(Note) -> bool {
    |n: Note| selected.contains(n)
}

/// The notes that are not among `selected`.
pub open spec fn outside(selected: Seq<Note>) -> spec_fn(Note) -> bool {
    |n: Note| !selected.contains(n)
}

/// The events of each note at `tick`.
pub open spec fn sounding_at(tick: i16) -> spec_fn(Note) -> Seq<Command> {
    |n: Note| n.events_at(tick)
}

/// The tick that the time `position`, in measures, lies in, where a measure
/// has `measure_ticks` ticks.
pub open spec fn tick_of(position: int, measure_ticks: int) -> int {
    (position * measure_ticks) / (ONE as int)
}

/// The notes, in the order in which they were drawn, and the number of ticks
/// in a measure.
#[derive(Debug, Clone, PartialEq, Eq)]
pub struct Score {
    pub measure_ticks: u16,
    pub notes: Vec<Note>,
}

/// A score as a mathematical value.
pub struct ScoreView {
    pub measure_ticks: u16,
    pub notes: Seq<Note>,
}

impl View for Score {
    type V = ScoreView;

    open spec fn view(&self) -> ScoreView {
        ScoreView { measure_ticks: self.measure_ticks, notes: self.notes@ }
    }
}

impl ScoreView {
    /// The notes that overlap the rectangle from `v0` to `v1`, in score
    /// order.
    pub open spec fn framed(self, v0: Vector2, v1: Vector2) -> Seq<Note> {
        self.notes.filter(framed_by(v0, v1, self.measure_ticks))
    }

    /// The score with one more note at its end.
    pub open spec fn with_note(self, note: Note) -> ScoreView {
        ScoreView { notes: self.notes.push(note), ..self }
    }

    /// The score without the notes that a click at `time` and `pitch` hits.
    pub open spec fn erased(self, time: Fixed, pitch: Fixed) -> ScoreView {
        ScoreView { notes: self.notes.filter(missed_by(time, pitch)), ..self }
    }

    /// The score without the notes that are equal to one of `selected`.
    pub open spec fn without(self, selected: Seq<Note>) -> ScoreView {
        ScoreView { notes: self.notes.filter(outside(selected)), ..self }
    }

    /// The events at `tick`, note by note in score order.
    pub open spec fn events_at(self, tick: i16) -> Seq<Command> {
        self.notes.flat_map(sounding_at(tick))
    }

    /// The tick that the time `position`, in measures, lies in, brought into
    /// the range of `i16`.
    pub open spec fn tick_at(self, position: Fixed) -> i16 {
        clamp_i16(tick_of(position as int, self.measure_ticks as int))
    }

    /// The tick before the one that `position` lies in, brought into the
    /// range of `i16`.
    pub open spec fn tick_before(self, position: Fixed) -> i16 {
        clamp_i16(tick_of(position as int, self.measure_ticks as int) - 1)
    }
}

impl Score {
    /// An empty score with sixteen ticks to the measure.
    pub fn new() -> (s: Score)
        ensures
            s@.measure_ticks == 16,
            s@.notes == Seq::<Note>::empty(),
    {
        Score { measure_ticks: 16, notes: Vec::new() }
    }

    /// The notes whose box overlaps the rectangle from `v0` to `v1`.
    pub fn framed(&self, v0: Vector2, v1: Vector2) -> (r: Vec<Note>)
        ensures
            r@ == self@.framed(v0, v1),
    {
        let mut out: Vec<Note> = Vec::new();
        let mut i: usize = 0;
        while i < self.notes.len()
            invariant
                i <= self.notes.len(),
                out@ == self.notes@.take(i as int).filter(
                    framed_by(v0, v1, self.measure_ticks),
                ),
            decreases self.notes.len() - i,
        {
            let n: Note = self.notes[i];
            proof {
                self.notes@.lemma_take_succ_push(i as int);
                self.notes@.take(i as int).lemma_filter_push(
                    n,
                    framed_by(v0, v1, self.measure_ticks),
                );
            }
            if n.is_framed(v0, v1, self.measure_ticks) {
                out.push(n);
            }
            i += 1;
        }
        proof {
            self.notes@.lemma_take_len();
        }
        out
    }

    /// Adds a note at the end.
    pub fn add(&mut self, note: Note)
        ensures
            final(self)@ == old(self)@.with_note(note),
    {
        self.notes.push(note);
    }

    /// Removes every note that a click at `time`, in ticks, and `pitch` hits.
    pub fn erase(&mut self, time: Fixed, pitch: Fixed)
        ensures
            final(self)@ == old(self)@.erased(time, pitch),
    {
        let mut kept: Vec<Note> = Vec::new();
        let mut i: usize = 0;
        while i < self.notes.len()
            invariant
                i <= self.notes.len(),
                *self == *old(self),
                kept@ == self.notes@.take(i as int).filter(missed_by(time, pitch)),
            decreases self.notes.len() - i,
        {
            let n: Note = self.notes[i];
            proof {
                self.notes@.lemma_take_succ_push(i as int);
                self.notes@.take(i as int).lemma_filter_push(n, missed_by(time, pitch));
            }
            if !n.is_hit(time, pitch) {
                kept.push(n);
            }
            i += 1;
        }
        proof {
            self.notes@.lemma_take_len();
        }
        self.notes = kept;
    }

    /// Removes every note that is equal to one of `selected`.
    pub fn remove(&mut self, selected: &Vec<Note>)
        ensures
            final(self)@ == old(self)@.without(selected@),
    {
        self.notes = self.unselected(selected);
    }

    /// The notes that are not equal to any of `selected`.
    pub fn unselected(&self, selected: &Vec<Note>) -> (kept: Vec<Note>)
        ensures
            kept@ == self@.without(selected@).notes,
    {
        let mut kept: Vec<Note> = Vec::new();
        let mut i: usize = 0;
        while i < self.notes.len()
            invariant
                i <= self.notes.len(),
                kept@ == self.notes@.take(i as int).filter(outside(selected@)),
            decreases self.notes.len() - i,
        {
            let n: Note = self.notes[i];
            proof {
                self.notes@.lemma_take_succ_push(i as int);
                self.notes@.take(i as int).lemma_filter_push(n, outside(selected@));
            }
            if !holds(selected, &n) {
                kept.push(n);
            }
            i += 1;
        }
        proof {
            self.notes@.lemma_take_len();
        }
        kept
    }

    /// Appends to `cmds` what the synthesizer is to do when playback arrives
    /// at `tick`.
    pub fn emit(&self, tick: i16, cmds: &mut Vec<Command>)
        ensures
            final(cmds)@ == old(cmds)@ + self@.events_at(tick),
    {
        let mut i: usize = 0;
        while i < self.notes.len()
            invariant
                i <= self.notes.len(),
                cmds@ == old(cmds)@ + self.notes@.take(i as int).flat_map(sounding_at(tick)),
            decreases self.notes.len() - i,
        {
            let n: Note = self.notes[i];
            proof {
                self.notes@.lemma_flat_map_take_append(sounding_at(tick), i as int);
            }
            if n.time.0 == tick {
                cmds.push(Command::NoteOn(n));
            }
            if n.time.1 == tick {
                cmds.push(Command::NoteOff(n));
            }
            i += 1;
        }
        proof {
            self.notes@.lemma_take_len();
        }
    }

    /// The tick that the time `position`, in measures, lies in.
    pub fn tick_at(&self, position: Fixed) -> (t: i16)
        ensures
            t == self@.tick_at(position),
    {
        let ticks: i128 = mul_wide(position, self.measure_ticks as i64);
        saturate_i16(floor_div(ticks, ONE as i128))
    }

    /// The tick before the one that the time `position` lies in.
    pub fn tick_before(&self, position: Fixed) -> (t: i16)
        ensures
            t == self@.tick_before(position),
    {
        let ticks: i128 = mul_wide(position, self.measure_ticks as i64);
        saturate_i16(floor_div(ticks, ONE as i128) - 1)
    }
}

/// Whether `note` is among `notes`.
pub fn holds(notes: &Vec<Note>, note: &Note) -> (r: bool)
    ensures
        r == notes@.contains(*note),
{
    let mut i: usize = 0;
    while i < notes.len()
        invariant
            i <= notes.len(),
            forall|j: int| 0 <= j < i ==> notes@[j] != *note,
        decreases notes.len() - i,
    {
        if notes[i].same(note) {
            return true;
        }
        i += 1;
    }
    false
}

} // verus!
