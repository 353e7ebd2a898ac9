//! What holds of the editor whatever the events are.

use vstd::prelude::*;
use crate::fixed::{clamp_i16, fits, round, Fixed, ONE};
use crate::geometry::{max, min, normalized, seconds_of, Vector2};
use crate::input::{Button, Pointer, Raw, DRAG_DELAY};
use crate::msg::{Command, Msg, KEY_ARROW, KEY_DELETE, KEY_PENCIL};
use crate::pianoroll::{PianoRollView, StateView};
use crate::score::{
    among, framed_by, missed_by, outside, sounding_at, Brick, Note, ScoreView,
};
use crate::ui::{
    pan_axis, zoom_axis, zoom_factor, Grid, MIN_PITCH_SPAN, PITCH_CEILING, PITCH_FLOOR,
};

verus! {

impl Note {
    /// The brick that lies exactly on this note.
    pub open spec fn as_brick(self) -> Brick {
        Brick {
            time: ((self.time.0 * ONE) as i64, (self.time.1 * ONE) as i64),
            pitch: (self.pitch * ONE) as i64,
        }
    }
}

/// Two predicates that agree on every member of a sequence filter it alike.
proof fn lemma_filter_agree<A>(s: Seq<A>, p: spec_fn(A) -> bool, q: spec_fn(A) -> bool)
    requires
        forall|i: int| 0 <= i < s.len() ==> p(#[trigger] s[i]) == q(s[i]),
    ensures
        s.filter(p) == s.filter(q),
    decreases s.len(),
{
    reveal(Seq::filter);
    if s.len() > 0 {
        assert(forall|i: int| 0 <= i < s.drop_last().len() ==> s.drop_last()[i] == s[i]);
        lemma_filter_agree(s.drop_last(), p, q);
    }
}

/// A member of a filtered sequence is a member of the sequence and meets
/// the predicate, and the other way round.
proof fn lemma_filter_members<A>(s: Seq<A>, p: spec_fn(A) -> bool, a: A)
    ensures
        s.filter(p).contains(a) <==> s.contains(a) && p(a),
    decreases s.len(),
{
    reveal(Seq::filter);
    if s.len() == 0 {
    } else {
        let front = s.drop_last();
        lemma_filter_members(front, p, a);
        if s.contains(a) {
            let i = choose|i: int| 0 <= i < s.len() && s[i] == a;
            if i < s.len() - 1 {
                assert(front[i] == a);
            }
        }
        if front.contains(a) {
            let i = choose|i: int| 0 <= i < front.len() && front[i] == a;
            assert(s[i] == a);
        }
        assert(s.last() == s[s.len() - 1]);
        let kept = front.filter(p);
        if p(s.last()) {
            let all = kept.push(s.last());
            if all.contains(a) {
                let i = choose|i: int| 0 <= i < all.len() && all[i] == a;
                if i < kept.len() {
                    assert(kept[i] == a);
                }
            }
            if kept.contains(a) {
                let i = choose|i: int| 0 <= i < kept.len() && kept[i] == a;
                assert(all[i] == a);
            }
            assert(all[all.len() - 1] == s.last());
        }
    }
}

/// A sequence holds what a filter keeps of it and what the filter drops.
proof fn lemma_filter_partition<A>(s: Seq<A>, p: spec_fn(A) -> bool, q: spec_fn(A) -> bool)
    requires
        forall|i: int| 0 <= i < s.len() ==> p(#[trigger] s[i]) == !q(s[i]),
    ensures
        s.to_multiset() =~= s.filter(p).to_multiset().add(s.filter(q).to_multiset()),
    decreases s.len(),
{
    broadcast use vstd::seq_lib::group_to_multiset_ensures;

    reveal(Seq::filter);
    if s.len() == 0 {
    } else {
        let front = s.drop_last();
        assert(forall|i: int| 0 <= i < front.len() ==> front[i] == s[i]);
        lemma_filter_partition(front, p, q);
        assert(s =~= front.push(s.last()));
    }
}

/// Once the notes that a predicate picks are selected, the selection holds
/// each note of the score that is equal to one of its members.
proof fn lemma_selection_is_closed(notes: Seq<Note>, p: spec_fn(Note) -> bool)
    ensures
        notes.filter(p) == notes.filter(among(notes.filter(p))),
{
    let selected = notes.filter(p);
    assert forall|i: int| 0 <= i < notes.len() implies p(#[trigger] notes[i]) == among(selected)(
        notes[i],
    ) by {
        lemma_filter_members(notes, p, notes[i]);
    }
    lemma_filter_agree(notes, p, among(selected));
}

/// What holds of every member of a sequence holds of every member of what
/// a filter keeps of it.
proof fn lemma_filter_keeps<A>(s: Seq<A>, p: spec_fn(A) -> bool, q: spec_fn(A) -> bool)
    requires
        forall|i: int| 0 <= i < s.len() ==> q(#[trigger] s[i]),
    ensures
        forall|i: int| 0 <= i < s.filter(p).len() ==> q(#[trigger] s.filter(p)[i]),
{
    assert forall|i: int| 0 <= i < s.filter(p).len() implies q(#[trigger] s.filter(p)[i]) by {
        let a = s.filter(p)[i];
        assert(s.filter(p).contains(a));
        lemma_filter_members(s, p, a);
        let j = choose|j: int| 0 <= j < s.len() && s[j] == a;
        assert(q(s[j]));
    }
}

/// The editor starts in a state that `wf` holds of.
pub proof fn lemma_initial_wf()
    ensures
        PianoRollView::initial().wf(),
{
}

/// Every event leaves the editor in a state that `wf` holds of, if it was in
/// one.
pub proof fn lemma_step_preserves_wf(pr: PianoRollView, msg: Msg)
    requires
        pr.wf(),
    ensures
        pr.step(msg).0.wf(),
{
    let ordered = |n: Note| n.ordered();
    match msg {
        Msg::LeftReleased { position } => {
            match pr.state {
                StateView::SelectFrame(a, b) => {
                    match (pr.grid.positioned(a), pr.grid.positioned(b)) {
                        (Some(va), Some(vb)) => {
                            let v = normalized(va, vb);
                            lemma_selection_is_closed(
                                pr.score.notes,
                                framed_by(v.0, v.1, pr.score.measure_ticks),
                            );
                        },
                        _ => {},
                    }
                },
                StateView::Drawing(brick) => {
                    lemma_commit_round_trip(brick);
                    lemma_filter_keeps(
                        pr.score.notes,
                        missed_by(brick.time.0, brick.pitch),
                        ordered,
                    );
                },
                _ => {},
            }
        },
        Msg::KeyPressed { scancode } => {
            match pr.state {
                StateView::NotesSelected(selected) => {
                    lemma_filter_keeps(pr.score.notes, outside(selected), ordered);
                },
                _ => {},
            }
        },
        _ => {},
    }
}

/// Each part of the editor is touched by its own events alone: the tool by
/// the two tool keys, the grid by the wheel, a drag with the right button
/// and a new size of the viewport, the score by a release of the left button
/// and the delete key, the play position by a release of the left button;
/// and only keys and time make the editor send anything.
pub proof fn lemma_step_touches_only_its_own(pr: PianoRollView, msg: Msg)
    ensures
        ({
            let done = pr.step(msg);
            &&& done.0.tool != pr.tool ==> msg == (Msg::KeyPressed { scancode: KEY_ARROW }) || msg
                == (Msg::KeyPressed { scancode: KEY_PENCIL })
            &&& done.0.grid != pr.grid ==> msg is MouseWheel || msg is RightDrag || msg is Resized
            &&& done.0.score != pr.score ==> msg is LeftReleased || msg
                == (Msg::KeyPressed { scancode: KEY_DELETE })
            &&& done.0.score.measure_ticks == pr.score.measure_ticks
            &&& done.0.play_pos != pr.play_pos ==> msg is LeftReleased
            &&& done.1.len() > 0 ==> msg is KeyPressed || msg is Time
            &&& (msg is MouseWheel || msg is RightDrag || msg is Resized) ==> done.0.state
                == pr.state
        }),
{
}

/// The pencil goes down on an idle editor, moves once and goes up.  The
/// brick then reaches from the even tick nearest to where it went down to
/// the time under the pointer, at the pitch where it went down.  If it spans
/// a tick, the score has one more note, at its end: the brick with both ends
/// rounded to the nearest tick, the earlier one first, and its pitch rounded
/// to the nearest step.  The editor is idle again and has sent nothing.
pub proof fn lemma_drawn_brick_is_appended(
    pr: PianoRollView,
    down: Vector2,
    to: Vector2,
    up: Vector2,
    brick: Brick,
)
    requires
        pr.state is Idle,
        pr.tool is Pencil,
        pr.step(Msg::LeftPressed { position: down }).0.step(Msg::LeftDrag { position: to }).0.state
            == StateView::Drawing(brick),
        brick.spans_a_tick(),
    ensures
        ({
            let drawn = pr.step(Msg::LeftPressed { position: down }).0.step(
                Msg::LeftDrag { position: to },
            ).0;
            let done = drawn.step(Msg::LeftReleased { position: up });
            let note = done.0.score.notes.last();
            &&& pr.brick_at(down) matches Some(start) && brick.time.0 == start.time.0
                && brick.pitch == start.pitch
            &&& pr.grid.positioned(to) matches Some(end) && brick.time.1 == end.x
                * pr.score.measure_ticks
            &&& done.0.score.notes == pr.score.notes.push(note)
            &&& done.0.score.measure_ticks == pr.score.measure_ticks
            &&& note == brick.committed()
            &&& note.time.0 == clamp_i16(
                min(round(brick.time.0 as int), round(brick.time.1 as int)),
            )
            &&& note.time.1 == clamp_i16(
                max(round(brick.time.0 as int), round(brick.time.1 as int)),
            )
            &&& note.pitch == clamp_i16(round(brick.pitch as int))
            &&& done.0.state is Idle
            &&& done.1 == Seq::<Command>::empty()
        }),
{
}

/// The pencil goes down on an idle editor and up again without a move in
/// between.  The score then is what it was without the notes under the
/// click, those less than half a step from its pitch that the clicked tick
/// is not outside of; nothing is added.  The editor is idle again and has
/// sent nothing.
pub proof fn lemma_click_erases(pr: PianoRollView, down: Vector2, up: Vector2, brick: Brick)
    requires
        pr.state is Idle,
        pr.tool is Pencil,
        pr.step(Msg::LeftPressed { position: down }).0.state == StateView::Drawing(brick),
    ensures
        ({
            let done = pr.step(Msg::LeftPressed { position: down }).0.step(
                Msg::LeftReleased { position: up },
            );
            &&& brick.is_click()
            &&& done.0.score.notes == pr.score.notes.filter(missed_by(brick.time.0, brick.pitch))
            &&& done.0.score.notes.len() <= pr.score.notes.len()
            &&& forall|n: Note|
                done.0.score.notes.contains(n) <==> pr.score.notes.contains(n) && !n.hit_by(
                    brick.time.0,
                    brick.pitch,
                )
            &&& done.0.state is Idle
            &&& done.1 == Seq::<Command>::empty()
        }),
{
    let missed = missed_by(brick.time.0, brick.pitch);
    pr.score.notes.lemma_filter_len(missed);
    assert forall|n: Note|
        pr.score.notes.filter(missed).contains(n) <==> pr.score.notes.contains(n) && !n.hit_by(
            brick.time.0,
            brick.pitch,
        ) by {
        lemma_filter_members(pr.score.notes, missed, n);
    }
}

/// The arrow goes down on an idle editor at a pixel, moves to another and
/// goes up.  Where the grid has a point for both pixels, the notes whose box
/// overlaps the rectangle between the two points are selected, all of them
/// and no others, in score order; where there is none, the editor is idle.
/// Where the grid has no point for one of the pixels, nothing is selected
/// and the editor is idle.  The score is as it was and nothing has been
/// sent.
pub proof fn lemma_frame_selects_overlapping(
    pr: PianoRollView,
    down: Vector2,
    to: Vector2,
    up: Vector2,
)
    requires
        pr.state is Idle,
        pr.tool is Arrow,
    ensures
        ({
            let done = pr.step(Msg::LeftPressed { position: down }).0.step(
                Msg::LeftDrag { position: to },
            ).0.step(Msg::LeftReleased { position: up });
            &&& match (pr.grid.positioned(down), pr.grid.positioned(to)) {
                (Some(from), Some(until)) => {
                    let corners = normalized(from, until);
                    let framed = pr.score.notes.filter(
                        framed_by(corners.0, corners.1, pr.score.measure_ticks),
                    );
                    &&& forall|n: Note|
                        framed.contains(n) <==> pr.score.notes.contains(n) && n.overlaps(
                            corners.0,
                            corners.1,
                            pr.score.measure_ticks,
                        )
                    &&& done.0.state == (if framed.len() == 0 {
                        StateView::Idle
                    } else {
                        StateView::NotesSelected(framed)
                    })
                },
                _ => done.0.state == StateView::Idle,
            }
            &&& done.0.score == pr.score
            &&& done.1 == Seq::<Command>::empty()
        }),
{
    match (pr.grid.positioned(down), pr.grid.positioned(to)) {
        (Some(from), Some(until)) => {
            let corners = normalized(from, until);
            let pred = framed_by(corners.0, corners.1, pr.score.measure_ticks);
            assert forall|n: Note|
                pr.score.notes.filter(pred).contains(n) <==> pr.score.notes.contains(n)
                    && n.overlaps(corners.0, corners.1, pr.score.measure_ticks) by {
                lemma_filter_members(pr.score.notes, pred, n);
            }
        },
        _ => {},
    }
}

/// A release of the left button ends what the press began, whatever the
/// viewport is: afterwards no point is marked, no frame is open and no brick
/// is being drawn.  The editor is idle, or holds a selection that is not
/// empty.
pub proof fn lemma_release_ends_the_gesture(pr: PianoRollView, up: Vector2)
    requires
        pr.state is PointSelected || pr.state is SelectFrame || pr.state is Drawing,
    ensures
        ({
            let done = pr.step(Msg::LeftReleased { position: up });
            &&& done.0.state is Idle || (done.0.state matches StateView::NotesSelected(selected)
                && selected.len() > 0)
            &&& done.0.state is NotesSelected ==> pr.state is SelectFrame
            &&& done.1 == Seq::<Command>::empty()
        }),
{
}

/// A release over a frame that overlaps no note leaves the editor idle; so
/// does one over any frame while the score is empty.
pub proof fn lemma_frame_over_nothing_goes_idle(
    pr: PianoRollView,
    a: Vector2,
    b: Vector2,
    up: Vector2,
)
    requires
        pr.state == StateView::SelectFrame(a, b),
    ensures
        ({
            let done = pr.step(Msg::LeftReleased { position: up });
            &&& done.0.state is Idle <==> (pr.framed(a, b) matches Some(notes) ==> notes.len()
                == 0)
            &&& pr.score.notes.len() == 0 ==> done.0.state is Idle
            &&& done.0.score == pr.score
            &&& done.0.play_pos == pr.play_pos
        }),
{
    match pr.framed(a, b) {
        Some(notes) => {
            let corners = normalized(pr.grid.positioned(a)->0, pr.grid.positioned(b)->0);
            pr.score.notes.lemma_filter_len(
                framed_by(corners.0, corners.1, pr.score.measure_ticks),
            );
        },
        None => {},
    }
}

/// A release over a marked point leaves the editor idle and sets the play
/// position to the time under the point, for which the viewport needs a
/// width and no height: the time that the left edge shows, and as much of
/// the span of time as the point's x is of the width, rounded down.  Where
/// the viewport has no width or the time does not fit, the play position
/// stays.  Nothing else changes.
pub proof fn lemma_point_sets_play_position(pr: PianoRollView, point: Vector2, up: Vector2)
    requires
        pr.state == StateView::PointSelected(point),
    ensures
        ({
            let done = pr.step(Msg::LeftReleased { position: up });
            let time = pr.grid.view.0.x + ((pr.grid.view.1.x - pr.grid.view.0.x) * point.x)
                / (pr.grid.size.x as int);
            &&& done.0.state is Idle
            &&& done.0.play_pos == (if pr.grid.size.x > 0 && fits(time) {
                time
            } else {
                pr.play_pos as int
            })
            &&& done.0.score == pr.score
            &&& done.0.grid == pr.grid
            &&& done.0.tool == pr.tool
            &&& done.1 == Seq::<Command>::empty()
        }),
{
}

/// The delete key on a selection takes out of the score the selected notes
/// and nothing else: what is left and what was selected make up the score as
/// it was, note for note, and what is left is in its old order.  A note that
/// is equal to a selected one is itself selected, so none of them stays.
pub proof fn lemma_delete_removes_selection(pr: PianoRollView, selected: Seq<Note>)
    requires
        pr.wf(),
        pr.state == StateView::NotesSelected(selected),
    ensures
        ({
            let done = pr.step(Msg::KeyPressed { scancode: KEY_DELETE });
            &&& done.0.score.notes == pr.score.notes.filter(outside(selected))
            &&& pr.score.notes.to_multiset() =~= selected.to_multiset().add(
                done.0.score.notes.to_multiset(),
            )
            &&& forall|n: Note|
                done.0.score.notes.contains(n) <==> pr.score.notes.contains(n)
                    && !selected.contains(n)
            &&& done.0.state is Idle
            &&& done.1 == Seq::<Command>::empty()
        }),
{
    lemma_filter_partition(pr.score.notes, among(selected), outside(selected));
    assert forall|n: Note|
        pr.score.notes.filter(outside(selected)).contains(n) <==> pr.score.notes.contains(n)
            && !selected.contains(n) by {
        lemma_filter_members(pr.score.notes, outside(selected), n);
    }
}

/// The point that a pixel shows is the point that the pixel (0, 0) shows,
/// moved by the displacement that the pixel's own coordinates show: the two
/// maps are the same but for where they start.
pub proof fn lemma_position_is_origin_plus_scale(grid: Grid, p: Vector2)
    requires
        grid.positioned(p) is Some,
        grid.scaled(p) is Some,
    ensures
        grid.positioned(p)->0.x == grid.view.0.x + grid.scaled(p)->0.x,
        grid.positioned(p)->0.y == grid.view.0.y + grid.scaled(p)->0.y,
        grid.positioned(Vector2 { x: 0, y: 0 }) == Some(grid.view.0),
{
    assert((grid.view.1.x - grid.view.0.x) * 0 == 0);
    assert((grid.view.1.y - grid.view.0.y) * 0 == 0);
}

/// A zoom by a factor above 1 is never held back, and it does not make the
/// span smaller.
pub proof fn lemma_zoom_out_is_unbounded(
    lo: int,
    hi: int,
    size: int,
    fixed_point: int,
    factor: int,
    min_span: int,
)
    requires
        factor > ONE,
        lo <= hi,
    ensures
        zoom_factor(lo, hi, factor, min_span) == factor,
        zoom_axis(lo, hi, size, fixed_point, factor, min_span) matches Some(z) ==> z.1 - z.0 >= hi
            - lo,
{
    let split = lo + ((hi - lo) * fixed_point) / size;
    lemma_zoomed_span(lo, hi, split, factor);
    assert(((hi - lo) * factor) >= (hi - lo) * ONE) by (nonlinear_arith)
        requires
            factor > ONE,
            lo <= hi,
    ;
}

/// A zoom by a factor that is not negative leaves the lower bound below the
/// upper one.
pub proof fn lemma_zoom_keeps_order(
    lo: int,
    hi: int,
    size: int,
    fixed_point: int,
    factor: int,
    min_span: int,
)
    requires
        factor >= 0,
        lo <= hi,
    ensures
        zoom_axis(lo, hi, size, fixed_point, factor, min_span) matches Some(z) ==> z.0 <= z.1,
{
    let split = lo + ((hi - lo) * fixed_point) / size;
    let k = zoom_factor(lo, hi, factor, min_span);
    assert((lo - split) * k <= (hi - split) * k) by (nonlinear_arith)
        requires
            k >= 0,
            lo <= hi,
    ;
}

/// The quotient of a floor division, by what it is between.
proof fn lemma_floor_bounds(x: int, d: int)
    requires
        d > 0,
    ensures
        d * (x / d) <= x < d * (x / d) + d,
{
    vstd::arithmetic::div_mod::lemma_fundamental_div_mod(x, d);
    vstd::arithmetic::div_mod::lemma_mod_bound(x, d);
}

/// A zoom holds the point under the fixed pixel in place: the coordinate
/// that the pixel showed stays between the bounds, and what the pixel shows
/// afterwards differs from it by rounding alone, which is no more than two
/// units down and one unit and the whole part of the factor up.
pub proof fn lemma_zoom_holds_fixed_point(
    lo: int,
    hi: int,
    size: int,
    fixed_point: int,
    factor: int,
    min_span: int,
)
    requires
        lo <= hi,
        0 <= fixed_point <= size,
        factor >= 0,
    ensures
        zoom_axis(lo, hi, size, fixed_point, factor, min_span) matches Some(z) ==> {
            let shown = lo + ((hi - lo) * fixed_point) / size;
            let after = z.0 + ((z.1 - z.0) * fixed_point) / size;
            &&& z.0 <= shown <= z.1
            &&& -2 <= after - shown <= zoom_factor(lo, hi, factor, min_span) / (ONE as int) + 1
        },
{
    if zoom_axis(lo, hi, size, fixed_point, factor, min_span) is Some {
        let unit = ONE as int;
        let k = zoom_factor(lo, hi, factor, min_span);
        let s = hi - lo;
        let t = fixed_point;
        let q = (s * t) / size;
        let a = ((lo - (lo + q)) * k) / unit;
        let b = ((hi - (lo + q)) * k) / unit;
        let c = ((b - a) * t) / size;
        lemma_floor_bounds(s * t, size);
        lemma_floor_bounds((lo - (lo + q)) * k, unit);
        lemma_floor_bounds((hi - (lo + q)) * k, unit);
        lemma_floor_bounds((b - a) * t, size);
        lemma_floor_bounds(k, unit);
        assert(0 <= q <= s) by (nonlinear_arith)
            requires
                size > 0,
                0 <= t <= size,
                s >= 0,
                size * q <= s * t < size * q + size,
        ;
        assert((lo - (lo + q)) * k == -(q * k) && (hi - (lo + q)) * k == s * k - q * k)
            by (nonlinear_arith)
            requires
                s == hi - lo,
        ;
        assert(a <= 0 <= b) by (nonlinear_arith)
            requires
                unit > 0,
                k >= 0,
                0 <= q <= s,
                unit * a <= -(q * k),
                s * k - q * k < unit * b + unit,
        ;
        // Downwards: (a + c + 2) * unit * size > -(unit * t) >= -(unit * size).
        let width = b - a;
        assert(unit * width > s * k - unit);
        assert(unit * (width * t) >= (s * k - unit) * t) by (nonlinear_arith)
            requires
                unit * width > s * k - unit,
                t >= 0,
        ;
        assert((s * k - unit) * t >= (q * k) * size - unit * t) by (nonlinear_arith)
            requires
                size * q <= s * t,
                k >= 0,
        ;
        assert(unit * (size * c + size) > unit * (width * t)) by (nonlinear_arith)
            requires
                unit > 0,
                width * t < size * c + size,
        ;
        assert((unit * a + unit) * size > -((q * k) * size)) by (nonlinear_arith)
            requires
                size > 0,
                -(q * k) < unit * a + unit,
        ;
        assert(unit * t <= unit * size) by (nonlinear_arith)
            requires
                unit > 0,
                t <= size,
        ;
        assert((a + c + 3) * (unit * size) > 0) by (nonlinear_arith)
            requires
                unit * (size * c + size) > (q * k) * size - unit * t,
                (unit * a + unit) * size > -((q * k) * size),
                unit * t <= unit * size,
        ;
        assert(a + c + 3 > 0) by (nonlinear_arith)
            requires
                (a + c + 3) * (unit * size) > 0,
                unit > 0,
                size > 0,
        ;
        // Upwards: (a + c) * unit * size <= k * size + unit * size.
        assert(unit * width < s * k + unit);
        assert(unit * (width * t) <= (s * k + unit) * t) by (nonlinear_arith)
            requires
                unit * width < s * k + unit,
                t >= 0,
        ;
        assert((s * k + unit) * t <= (q * k) * size + k * size + unit * t) by (nonlinear_arith)
            requires
                s * t < size * q + size,
                k >= 0,
        ;
        assert(unit * (size * c) <= unit * (width * t)) by (nonlinear_arith)
            requires
                unit > 0,
                size * c <= width * t,
        ;
        assert((unit * a) * size <= -((q * k) * size)) by (nonlinear_arith)
            requires
                size > 0,
                unit * a <= -(q * k),
        ;
        assert((a + c - 1) * (unit * size) <= k * size) by (nonlinear_arith)
            requires
                unit * (size * c) <= (q * k) * size + k * size + unit * t,
                (unit * a) * size <= -((q * k) * size),
                unit * t <= unit * size,
        ;
        assert((a + c - 1) * unit <= k) by (nonlinear_arith)
            requires
                (a + c - 1) * (unit * size) <= k * size,
                size > 0,
        ;
        assert(a + c - 1 <= k / unit) by (nonlinear_arith)
            requires
                unit > 0,
                (a + c - 1) * unit <= k,
                k < unit * (k / unit) + unit,
        ;
    }
}

/// A zoom in that would leave a span below the minimum is not carried out:
/// the bounds stay as they are.
pub proof fn lemma_zoom_in_stops_at_minimum(
    lo: int,
    hi: int,
    size: int,
    fixed_point: int,
    factor: int,
    min_span: int,
)
    requires
        factor <= ONE,
        ((hi - lo) * factor) / (ONE as int) < min_span,
    ensures
        zoom_factor(lo, hi, factor, min_span) == ONE,
        zoom_axis(lo, hi, size, fixed_point, factor, min_span) matches Some(z) ==> z == (lo, hi),
{
    let split = lo + ((hi - lo) * fixed_point) / size;
    assert((lo - split) * ONE / (ONE as int) == lo - split);
    assert((hi - split) * ONE / (ONE as int) == hi - split);
}

/// No zoom takes the span below the minimum, and none makes smaller a span
/// that is below it already.
pub proof fn lemma_zoom_keeps_min_span(
    lo: int,
    hi: int,
    size: int,
    fixed_point: int,
    factor: int,
    min_span: int,
)
    requires
        lo <= hi,
    ensures
        zoom_axis(lo, hi, size, fixed_point, factor, min_span) matches Some(z) ==> z.1 - z.0
            >= min(hi - lo, min_span),
{
    let split = lo + ((hi - lo) * fixed_point) / size;
    if factor > ONE {
        lemma_zoom_out_is_unbounded(lo, hi, size, fixed_point, factor, min_span);
    } else if ((hi - lo) * factor) / (ONE as int) < min_span {
        lemma_zoom_in_stops_at_minimum(lo, hi, size, fixed_point, factor, min_span);
    } else {
        lemma_zoomed_span(lo, hi, split, factor);
    }
}

/// The span between two bounds that are each moved to `factor` times their
/// distance from `split`, rounded down, is at least `factor` times the old
/// span, rounded down.
proof fn lemma_zoomed_span(lo: int, hi: int, split: int, factor: int)
    ensures
        (split + ((hi - split) * factor) / (ONE as int)) - (split + ((lo - split) * factor) / (
        ONE as int)) >= ((hi - lo) * factor) / (ONE as int),
{
    assert((hi - split) * factor == (lo - split) * factor + (hi - lo) * factor)
        by (nonlinear_arith);
}

/// No zoom of the pitch axis of a grid takes the span of pitch below the
/// minimum, and none makes smaller a span that is below it already.
pub proof fn lemma_zoom_y_keeps_min_span(grid: Grid, fixed_point: Fixed, factor: Fixed)
    requires
        grid.view.0.y <= grid.view.1.y,
    ensures
        ({
            let g = grid.zoomed_y(fixed_point, factor);
            g.view.1.y - g.view.0.y >= min(
                grid.view.1.y - grid.view.0.y,
                MIN_PITCH_SPAN as int,
            )
        }),
{
    lemma_zoom_keeps_min_span(
        grid.view.0.y as int,
        grid.view.1.y as int,
        grid.size.y as int,
        fixed_point as int,
        factor as int,
        MIN_PITCH_SPAN as int,
    );
}

/// The same for the time axis.
pub proof fn lemma_zoom_x_keeps_min_span(grid: Grid, fixed_point: Fixed, factor: Fixed)
    requires
        grid.view.0.x <= grid.view.1.x,
    ensures
        ({
            let g = grid.zoomed_x(fixed_point, factor);
            g.view.1.x - g.view.0.x >= min(grid.view.1.x - grid.view.0.x, grid.min_time_span())
        }),
{
    lemma_zoom_keeps_min_span(
        grid.view.0.x as int,
        grid.view.1.x as int,
        grid.size.x as int,
        fixed_point as int,
        factor as int,
        grid.min_time_span(),
    );
}

/// A pan, whatever its length, brings the lower edge of the pitch window
/// neither below the floor nor down at all where it is below the floor
/// already, and the upper edge neither above the ceiling nor up at all
/// where it is above the ceiling already.  A window inside the range stays
/// inside.
pub proof fn lemma_pan_keeps_pitch_range(grid: Grid, vector: Vector2)
    ensures
        ({
            let g = grid.panned(vector);
            &&& g.view.0.y >= PITCH_FLOOR || g.view.0.y >= grid.view.0.y
            &&& g.view.1.y <= PITCH_CEILING || g.view.1.y <= grid.view.1.y
            &&& PITCH_FLOOR <= grid.view.0.y && grid.view.1.y <= PITCH_CEILING ==> PITCH_FLOOR
                <= g.view.0.y && g.view.1.y <= PITCH_CEILING
            &&& g.view.1.y - g.view.0.y == grid.view.1.y - grid.view.0.y
        }),
{
}

/// A pan moves the time window by the length of the drag in musical space,
/// wherever the moved window can be held at all.
pub proof fn lemma_pan_time_is_unclamped(grid: Grid, vector: Vector2)
    ensures
        ({
            let g = grid.panned(vector);
            match pan_axis(
                grid.view.0.x as int,
                grid.view.1.x as int,
                grid.size.x as int,
                vector.x as int,
            ) {
                Some(x) => g.view.0.x == x.0 && g.view.1.x == x.1,
                None => g.view.0.x == grid.view.0.x && g.view.1.x == grid.view.1.x,
            }
        }),
{
}

/// While playing, a time event never goes back to a tick that has been
/// sent: the last tick sent does not decrease, commands are sent only when
/// it increases, and they are then the events of the new tick alone, in
/// score order.  The score stays as it is.
pub proof fn lemma_playback_never_repeats(pr: PianoRollView, seconds: u64, nanos: u32)
    requires
        pr.state is Playing,
    ensures
        ({
            let last = pr.state->Playing_1;
            let done = pr.step(Msg::Time { seconds, nanos });
            &&& done.0.state is Playing
            &&& done.0.state->Playing_1 >= last
            &&& done.1.len() > 0 ==> done.0.state->Playing_1 > last
            &&& done.0.state->Playing_1 > last ==> done.1 == pr.score.events_at(
                done.0.state->Playing_1,
            )
            &&& done.0.state->Playing_1 == last ==> done.1 == Seq::<Command>::empty()
            &&& done.0.score == pr.score
            &&& done.0.play_pos == pr.play_pos
        }),
{
}

/// The commands that switch a note on.
pub open spec fn switches_on() -> spec_fn(Command) -> bool {
    |c: Command| c is NoteOn
}

/// The commands that switch a note off.
pub open spec fn switches_off() -> spec_fn(Command) -> bool {
    |c: Command| c is NoteOff
}

/// The notes that start at `tick`.
pub open spec fn starting_at(tick: i16) -> spec_fn(Note) -> bool {
    |n: Note| n.time.0 == tick
}

/// The notes that end at `tick`.
pub open spec fn ending_at(tick: i16) -> spec_fn(Note) -> bool {
    |n: Note| n.time.1 == tick
}

/// The command that switches a note on.
pub open spec fn note_on() -> spec_fn(Note) -> Command {
    |n: Note| Command::NoteOn(n)
}

/// The command that switches a note off.
pub open spec fn note_off() -> spec_fn(Note) -> Command {
    |n: Note| Command::NoteOff(n)
}

/// The events of a tick switch on each note that starts there, once for
/// each time that it stands in the score and in score order, and nothing
/// else.
pub proof fn lemma_each_note_is_switched_on_once(score: ScoreView, tick: i16)
    ensures
        score.events_at(tick).filter(switches_on()) == score.notes.filter(
            starting_at(tick),
        ).map_values(note_on()),
    decreases score.notes.len(),
{
    let notes = score.notes;
    let each = sounding_at(tick);
    let none = Seq::<Command>::empty();
    if notes.len() == 0 {
        assert(notes.flat_map(each) =~= none);
        assert(notes.filter(starting_at(tick)) =~= Seq::<Note>::empty()) by {
            reveal(Seq::filter);
        }
        assert(notes.filter(starting_at(tick)).map_values(note_on()) =~= none);
        assert(none.filter(switches_on()) =~= none) by {
            reveal(Seq::filter);
        }
    } else {
        let front = notes.drop_last();
        let n = notes.last();
        let before = front.flat_map(each);
        let started = front.filter(starting_at(tick));
        assert(before.filter(switches_on()) == started.map_values(note_on())) by {
            lemma_each_note_is_switched_on_once(ScoreView { notes: front, ..score }, tick);
        }
        assert(notes =~= front.push(n));
        assert(notes.flat_map(each) == before + each(n)) by {
            front.lemma_flat_map_push(each, n);
        }
        assert((before + each(n)).filter(switches_on()) == before.filter(switches_on()) + each(
            n,
        ).filter(switches_on())) by {
            Seq::filter_distributes_over_add(before, each(n), switches_on());
        }
        assert(each(n) == n.events_at(tick));
        lemma_events_of_one_note(n, tick);
        assert(notes.filter(starting_at(tick)) == (if n.time.0 == tick {
            started.push(n)
        } else {
            started
        })) by {
            front.lemma_filter_push(n, starting_at(tick));
        }
        if n.time.0 == tick {
            assert(started.push(n).map_values(note_on()) =~= started.map_values(note_on()).push(
                Command::NoteOn(n),
            ));
            assert(started.map_values(note_on()) + seq![Command::NoteOn(n)]
                =~= started.map_values(note_on()).push(Command::NoteOn(n)));
        } else {
            assert(started.map_values(note_on()) + none =~= started.map_values(note_on()));
        }
    }
}

/// The events of a tick switch off each note that ends there, once for each
/// time that it stands in the score and in score order, and nothing else.
pub proof fn lemma_each_note_is_switched_off_once(score: ScoreView, tick: i16)
    ensures
        score.events_at(tick).filter(switches_off()) == score.notes.filter(
            ending_at(tick),
        ).map_values(note_off()),
    decreases score.notes.len(),
{
    let notes = score.notes;
    let each = sounding_at(tick);
    let none = Seq::<Command>::empty();
    if notes.len() == 0 {
        assert(notes.flat_map(each) =~= none);
        assert(notes.filter(ending_at(tick)) =~= Seq::<Note>::empty()) by {
            reveal(Seq::filter);
        }
        assert(notes.filter(ending_at(tick)).map_values(note_off()) =~= none);
        assert(none.filter(switches_off()) =~= none) by {
            reveal(Seq::filter);
        }
    } else {
        let front = notes.drop_last();
        let n = notes.last();
        let before = front.flat_map(each);
        let ended = front.filter(ending_at(tick));
        assert(before.filter(switches_off()) == ended.map_values(note_off())) by {
            lemma_each_note_is_switched_off_once(ScoreView { notes: front, ..score }, tick);
        }
        assert(notes =~= front.push(n));
        assert(notes.flat_map(each) == before + each(n)) by {
            front.lemma_flat_map_push(each, n);
        }
        assert((before + each(n)).filter(switches_off()) == before.filter(switches_off())
            + each(n).filter(switches_off())) by {
            Seq::filter_distributes_over_add(before, each(n), switches_off());
        }
        assert(each(n) == n.events_at(tick));
        lemma_events_of_one_note(n, tick);
        assert(notes.filter(ending_at(tick)) == (if n.time.1 == tick {
            ended.push(n)
        } else {
            ended
        })) by {
            front.lemma_filter_push(n, ending_at(tick));
        }
        if n.time.1 == tick {
            assert(ended.push(n).map_values(note_off()) =~= ended.map_values(note_off()).push(
                Command::NoteOff(n),
            ));
            assert(ended.map_values(note_off()) + seq![Command::NoteOff(n)]
                =~= ended.map_values(note_off()).push(Command::NoteOff(n)));
        } else {
            assert(ended.map_values(note_off()) + none =~= ended.map_values(note_off()));
        }
    }
}

/// Of the two events that a note can have at a tick, the first switches it
/// on and the second switches it off.
proof fn lemma_events_of_one_note(n: Note, tick: i16)
    ensures
        n.events_at(tick).filter(switches_on()) == (if n.time.0 == tick {
            seq![Command::NoteOn(n)]
        } else {
            Seq::<Command>::empty()
        }),
        n.events_at(tick).filter(switches_off()) == (if n.time.1 == tick {
            seq![Command::NoteOff(n)]
        } else {
            Seq::<Command>::empty()
        }),
{
    let on = seq![Command::NoteOn(n)];
    let off = seq![Command::NoteOff(n)];
    let none = Seq::<Command>::empty();
    assert(on =~= none.push(Command::NoteOn(n)));
    assert(off =~= none.push(Command::NoteOff(n)));
    none.lemma_filter_push(Command::NoteOn(n), switches_on());
    none.lemma_filter_push(Command::NoteOn(n), switches_off());
    none.lemma_filter_push(Command::NoteOff(n), switches_on());
    none.lemma_filter_push(Command::NoteOff(n), switches_off());
    assert(none.filter(switches_on()) =~= none) by {
        reveal(Seq::filter);
    }
    assert(none.filter(switches_off()) =~= none) by {
        reveal(Seq::filter);
    }
    Seq::filter_distributes_over_add(
        if n.time.0 == tick { on } else { none },
        if n.time.1 == tick { off } else { none },
        switches_on(),
    );
    Seq::filter_distributes_over_add(
        if n.time.0 == tick { on } else { none },
        if n.time.1 == tick { off } else { none },
        switches_off(),
    );
    assert(none.push(Command::NoteOn(n)) + none =~= none.push(Command::NoteOn(n)));
    assert(none + none.push(Command::NoteOff(n)) =~= none.push(Command::NoteOff(n)));
    assert(none + none =~= none);
}

/// A later time event arrives at the same tick or a later one: the tick
/// that playback is in does not decrease with the time that has passed.
pub proof fn lemma_playback_follows_time(
    pr: PianoRollView,
    seconds: u64,
    nanos: u32,
    later_seconds: u64,
    later_nanos: u32,
)
    requires
        seconds_of(seconds, nanos) <= seconds_of(later_seconds, later_nanos),
        pr.position_after(seconds, nanos) is Some,
        pr.position_after(later_seconds, later_nanos) is Some,
    ensures
        pr.score.tick_at(pr.position_after(seconds, nanos)->0) <= pr.score.tick_at(
            pr.position_after(later_seconds, later_nanos)->0,
        ),
{
    let a = pr.position_after(seconds, nanos)->0 as int;
    let b = pr.position_after(later_seconds, later_nanos)->0 as int;
    let m = pr.score.measure_ticks as int;
    assert(a * m <= b * m) by (nonlinear_arith)
        requires
            a <= b,
            m >= 0,
    ;
}

/// A move of the pointer is a drag with the left button exactly when the
/// button has been held for `DRAG_DELAY` milliseconds or longer; before
/// that, a move after a press gives the editor nothing to open a frame or
/// stretch a brick with.
pub proof fn lemma_drag_waits_for_the_delay(
    pointer: Pointer,
    pressed: u64,
    position: Vector2,
    moved: u64,
)
    ensures
        ({
            let held = pointer.fed(Raw::ButtonPressed { button: Button::Left, millis: pressed });
            let after = held.0.fed(Raw::PointerMoved { position, millis: moved });
            &&& held.1 == Some(Msg::LeftPressed { position: pointer.position })
            &&& after.1 is Some && after.1->0 is LeftDrag <==> moved - pressed >= DRAG_DELAY
            &&& moved - pressed >= DRAG_DELAY ==> after.1 == Some(
                Msg::LeftDrag { position: pointer.flipped(position) },
            )
            &&& after.0.position == pointer.flipped(position)
        }),
{
}

/// A brick that has become a note and comes back as the brick that lies
/// exactly on that note becomes the same note again: rounding moves nothing
/// that is on a tick and a step already, and the ends stay in their order.
pub proof fn lemma_commit_round_trip(brick: Brick)
    ensures
        brick.committed().time.0 <= brick.committed().time.1,
        brick.committed().channel == 0,
        brick.committed().pitch == clamp_i16(round(brick.pitch as int)),
        brick.committed().as_brick().committed() == brick.committed(),
{
}

/// A click on a note erases it: a brick that lies exactly on a note, at one
/// of its ticks, hits that note.
pub proof fn lemma_click_hits_note_under_it(note: Note, tick: i16)
    requires
        note.time.0 <= tick <= note.time.1,
    ensures
        note.hit_by((tick * ONE) as i64, (note.pitch * ONE) as i64),
{
}

} // verus!
