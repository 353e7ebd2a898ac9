use pianoroll::fixed::{HALF, ONE};
use pianoroll::msg::{KEY_ARROW, KEY_DELETE, KEY_PENCIL, KEY_SAVE, KEY_TRANSPORT};
use pianoroll::ui::{Grid, Style};
use pianoroll::{Brick, Command, Msg, Note, PianoRoll, State, Tool, Vector2};

fn note(start: i16, end: i16, pitch: i16) -> Note {
    Note { channel: 0, time: (start, end), pitch }
}

/// The pixel that shows `tick` and `pitch` once the viewport is 196 by 124
/// pixels: there a pixel is a tick wide and a step high.
fn at(tick: i64, pitch: i64) -> Vector2 {
    Vector2::new((tick + 4) * ONE, (pitch - 31) * ONE)
}

fn send(pr: &mut PianoRoll, msg: Msg) -> Vec<Command> {
    let mut cmds = Vec::new();
    pr.model(msg, &mut cmds);
    cmds
}

fn key(pr: &mut PianoRoll, scancode: u32) -> Vec<Command> {
    send(pr, Msg::KeyPressed { scancode })
}

fn press(pr: &mut PianoRoll, position: Vector2) {
    assert!(send(pr, Msg::LeftPressed { position }).is_empty());
}

fn drag(pr: &mut PianoRoll, position: Vector2) {
    assert!(send(pr, Msg::LeftDrag { position }).is_empty());
}

fn release(pr: &mut PianoRoll, position: Vector2) {
    assert!(send(pr, Msg::LeftReleased { position }).is_empty());
}

fn tick(pr: &mut PianoRoll, seconds: u64, nanos: u32) -> Vec<Command> {
    send(pr, Msg::Time { seconds, nanos })
}

/// An editor whose viewport is 196 by 124 pixels.
fn editor() -> PianoRoll {
    let mut pr = PianoRoll::new();
    assert!(send(&mut pr, Msg::Resized { width: 196 * ONE, height: 124 * ONE }).is_empty());
    pr
}

fn draw_note(pr: &mut PianoRoll, start: i64, end: i64, pitch: i64) {
    key(pr, KEY_PENCIL);
    press(pr, at(start, pitch));
    drag(pr, at(end, pitch));
    release(pr, at(end, pitch));
    key(pr, KEY_ARROW);
}

/// An editor with the notes (0, 4) at pitch 60 and (4, 8) at pitch 62.
fn editor_with_two_notes() -> PianoRoll {
    let mut pr = editor();
    draw_note(&mut pr, 0, 4, 60);
    draw_note(&mut pr, 4, 8, 62);
    assert_eq!(pr.score().notes, vec![note(0, 4, 60), note(4, 8, 62)]);
    pr
}

#[test]
fn new_editor_is_idle_with_the_arrow() {
    let pr = PianoRoll::new();
    assert_eq!(*pr.state(), State::Idle);
    assert_eq!(pr.tool(), Tool::Arrow);
    assert_eq!(pr.play_pos(), 0);
    assert_eq!(pr.score().measure_ticks, 16);
    assert!(pr.score().notes.is_empty());
    let grid = pr.grid();
    assert_eq!(grid.size, Vector2::new(1024 * ONE, 768 * ONE));
    assert_eq!(
        grid.view,
        (Vector2::new(-(ONE / 4), 31 * ONE), Vector2::new(12 * ONE, 155 * ONE))
    );
    assert_eq!(grid.beats, 4);
    assert_eq!(grid.style, Style::Dark);
    assert_eq!(
        *grid,
        Grid::new(
            Vector2::new(1024 * ONE, 768 * ONE),
            (Vector2::new(-(ONE / 4), 31 * ONE), Vector2::new(12 * ONE, 155 * ONE))
        )
    );
}

#[test]
fn tool_keys_change_the_tool_only() {
    let mut pr = editor();
    assert!(key(&mut pr, KEY_PENCIL).is_empty());
    assert_eq!(pr.tool(), Tool::Pencil);
    assert_eq!(*pr.state(), State::Idle);
    assert!(key(&mut pr, KEY_PENCIL).is_empty());
    assert_eq!(pr.tool(), Tool::Pencil);
    assert!(key(&mut pr, KEY_ARROW).is_empty());
    assert_eq!(pr.tool(), Tool::Arrow);
    press(&mut pr, at(0, 60));
    key(&mut pr, KEY_PENCIL);
    assert_eq!(pr.tool(), Tool::Pencil);
    assert_eq!(*pr.state(), State::PointSelected(at(0, 60)));
}

#[test]
fn arrow_press_marks_the_point() {
    let mut pr = editor();
    press(&mut pr, at(3, 70));
    assert_eq!(*pr.state(), State::PointSelected(at(3, 70)));
    assert!(pr.score().notes.is_empty());
}

#[test]
fn pencil_press_starts_a_brick_on_an_even_tick() {
    let mut pr = editor();
    key(&mut pr, KEY_PENCIL);
    press(&mut pr, at(6, 60));
    assert_eq!(*pr.state(), State::Drawing(Brick { time: (6 * ONE, 6 * ONE), pitch: 60 * ONE }));
    let mut pr = editor();
    key(&mut pr, KEY_PENCIL);
    press(&mut pr, at(7, 60));
    assert_eq!(*pr.state(), State::Drawing(Brick { time: (8 * ONE, 8 * ONE), pitch: 60 * ONE }));
    let mut pr = editor();
    key(&mut pr, KEY_PENCIL);
    press(&mut pr, Vector2::new(10 * ONE + HALF + 30000, 29 * ONE + 12345));
    assert_eq!(
        *pr.state(),
        State::Drawing(Brick { time: (6 * ONE, 6 * ONE), pitch: 60 * ONE + 12345 })
    );
}

#[test]
fn pencil_press_before_time_zero_snaps_away_from_zero() {
    let mut pr = editor();
    key(&mut pr, KEY_PENCIL);
    press(&mut pr, at(-1, 40));
    assert_eq!(*pr.state(), State::Drawing(Brick { time: (-2 * ONE, -2 * ONE), pitch: 40 * ONE }));
    let mut pr = editor();
    key(&mut pr, KEY_PENCIL);
    press(&mut pr, at(-3, 40));
    assert_eq!(*pr.state(), State::Drawing(Brick { time: (-4 * ONE, -4 * ONE), pitch: 40 * ONE }));
}

#[test]
fn drag_moves_the_free_end_of_the_brick() {
    let mut pr = editor();
    key(&mut pr, KEY_PENCIL);
    press(&mut pr, at(2, 60));
    drag(&mut pr, at(5, 90));
    assert_eq!(*pr.state(), State::Drawing(Brick { time: (2 * ONE, 5 * ONE), pitch: 60 * ONE }));
    drag(&mut pr, Vector2::new(4 * ONE + HALF, 0));
    assert_eq!(*pr.state(), State::Drawing(Brick { time: (2 * ONE, HALF), pitch: 60 * ONE }));
    drag(&mut pr, at(-3, 60));
    assert_eq!(*pr.state(), State::Drawing(Brick { time: (2 * ONE, -3 * ONE), pitch: 60 * ONE }));
    assert!(pr.score().notes.is_empty());
}

#[test]
fn drawn_brick_is_appended_as_one_note() {
    let mut pr = editor();
    key(&mut pr, KEY_PENCIL);
    press(&mut pr, at(0, 60));
    drag(&mut pr, at(4, 60));
    release(&mut pr, at(4, 60));
    assert_eq!(*pr.state(), State::Idle);
    assert_eq!(pr.score().notes, vec![note(0, 4, 60)]);
    press(&mut pr, at(8, 45));
    drag(&mut pr, Vector2::new(14 * ONE + HALF - 1, 0));
    release(&mut pr, at(0, 0));
    assert_eq!(pr.score().notes, vec![note(0, 4, 60), note(8, 10, 45)]);
    assert_eq!(pr.tool(), Tool::Pencil);
}

#[test]
fn brick_drawn_backwards_is_sorted() {
    let mut pr = editor();
    key(&mut pr, KEY_PENCIL);
    press(&mut pr, at(8, 50));
    drag(&mut pr, at(3, 50));
    release(&mut pr, at(3, 50));
    assert_eq!(pr.score().notes, vec![note(3, 8, 50)]);
}

#[test]
fn same_drag_twice_gives_the_same_note_twice() {
    let mut pr = editor();
    key(&mut pr, KEY_PENCIL);
    for _ in 0..2 {
        press(&mut pr, at(2, 50));
        drag(&mut pr, Vector2::new(9 * ONE + 17, 3 * ONE));
        release(&mut pr, at(0, 0));
    }
    assert_eq!(pr.score().notes, vec![note(2, 5, 50), note(2, 5, 50)]);
}

#[test]
fn click_erases_the_notes_under_it_and_adds_nothing() {
    let mut pr = editor_with_two_notes();
    draw_note(&mut pr, 2, 6, 60);
    assert_eq!(pr.score().notes.len(), 3);
    key(&mut pr, KEY_PENCIL);
    press(&mut pr, at(4, 60));
    release(&mut pr, at(4, 60));
    assert_eq!(*pr.state(), State::Idle);
    assert_eq!(pr.score().notes, vec![note(4, 8, 62)]);
}

#[test]
fn click_on_nothing_changes_nothing() {
    let mut pr = editor_with_two_notes();
    key(&mut pr, KEY_PENCIL);
    press(&mut pr, at(4, 61));
    release(&mut pr, at(4, 61));
    assert_eq!(pr.score().notes, vec![note(0, 4, 60), note(4, 8, 62)]);
    press(&mut pr, at(10, 62));
    release(&mut pr, at(10, 62));
    assert_eq!(pr.score().notes, vec![note(0, 4, 60), note(4, 8, 62)]);
    assert_eq!(*pr.state(), State::Idle);
}

#[test]
fn click_within_half_a_step_erases() {
    let mut pr = editor_with_two_notes();
    key(&mut pr, KEY_PENCIL);
    press(&mut pr, Vector2::new(10 * ONE, 31 * ONE + HALF));
    release(&mut pr, at(0, 0));
    assert_eq!(pr.score().notes, vec![note(0, 4, 60), note(4, 8, 62)]);
    press(&mut pr, Vector2::new(10 * ONE, 31 * ONE + HALF - 1));
    release(&mut pr, at(0, 0));
    assert_eq!(pr.score().notes, vec![note(0, 4, 60)]);
}

#[test]
fn brick_shorter_than_a_tick_that_moved_does_nothing() {
    let mut pr = editor_with_two_notes();
    key(&mut pr, KEY_PENCIL);
    press(&mut pr, at(4, 60));
    drag(&mut pr, Vector2::new(8 * ONE + 100, 29 * ONE));
    assert_eq!(
        *pr.state(),
        State::Drawing(Brick { time: (4 * ONE, 4 * ONE + 96), pitch: 60 * ONE })
    );
    release(&mut pr, at(4, 60));
    assert_eq!(*pr.state(), State::Idle);
    assert_eq!(pr.score().notes, vec![note(0, 4, 60), note(4, 8, 62)]);
}

#[test]
fn brick_dragged_back_to_its_start_is_a_click() {
    let mut pr = editor_with_two_notes();
    key(&mut pr, KEY_PENCIL);
    press(&mut pr, at(6, 62));
    drag(&mut pr, at(9, 62));
    drag(&mut pr, at(6, 62));
    release(&mut pr, at(6, 62));
    assert_eq!(pr.score().notes, vec![note(0, 4, 60)]);
}

#[test]
fn arrow_release_sets_the_play_position() {
    let mut pr = editor();
    press(&mut pr, at(8, 60));
    release(&mut pr, at(8, 60));
    assert_eq!(*pr.state(), State::Idle);
    assert_eq!(pr.play_pos(), HALF);
    press(&mut pr, at(-2, 0));
    release(&mut pr, at(5, 5));
    assert_eq!(pr.play_pos(), -(ONE / 8));
}

#[test]
fn drag_after_arrow_press_opens_a_frame() {
    let mut pr = editor();
    press(&mut pr, at(1, 50));
    drag(&mut pr, at(5, 70));
    assert_eq!(*pr.state(), State::SelectFrame(at(1, 50), at(5, 70)));
    drag(&mut pr, at(0, 40));
    assert_eq!(*pr.state(), State::SelectFrame(at(1, 50), at(0, 40)));
    assert_eq!(pr.play_pos(), 0);
}

#[test]
fn frame_selects_exactly_the_overlapping_notes() {
    let mut pr = editor_with_two_notes();
    draw_note(&mut pr, 0, 4, 80);
    press(&mut pr, at(3, 58));
    drag(&mut pr, at(5, 63));
    release(&mut pr, at(5, 63));
    assert_eq!(*pr.state(), State::NotesSelected(vec![note(0, 4, 60), note(4, 8, 62)]));
    assert_eq!(pr.score().notes, vec![note(0, 4, 60), note(4, 8, 62), note(0, 4, 80)]);
    assert_eq!(pr.play_pos(), 0);
}

#[test]
fn frame_dragged_from_any_corner_selects_the_same() {
    let mut pr = editor_with_two_notes();
    press(&mut pr, at(5, 58));
    drag(&mut pr, at(3, 61));
    release(&mut pr, at(0, 0));
    assert_eq!(*pr.state(), State::NotesSelected(vec![note(0, 4, 60)]));
    let mut pr = editor_with_two_notes();
    press(&mut pr, at(3, 61));
    drag(&mut pr, at(5, 58));
    release(&mut pr, at(0, 0));
    assert_eq!(*pr.state(), State::NotesSelected(vec![note(0, 4, 60)]));
}

#[test]
fn frame_that_only_touches_selects_nothing() {
    let mut pr = editor_with_two_notes();
    press(&mut pr, at(8, 50));
    drag(&mut pr, at(12, 70));
    release(&mut pr, at(12, 70));
    assert_eq!(*pr.state(), State::Idle);
    press(&mut pr, Vector2::new(0, 29 * ONE + HALF));
    drag(&mut pr, Vector2::new(100 * ONE, 30 * ONE + HALF));
    release(&mut pr, at(0, 0));
    assert_eq!(*pr.state(), State::Idle);
    press(&mut pr, Vector2::new(0, 29 * ONE + HALF));
    drag(&mut pr, Vector2::new(100 * ONE, 30 * ONE + HALF + 1));
    release(&mut pr, at(0, 0));
    assert_eq!(*pr.state(), State::NotesSelected(vec![note(4, 8, 62)]));
}

#[test]
fn frame_over_nothing_goes_back_to_idle() {
    let mut pr = editor_with_two_notes();
    press(&mut pr, at(20, 100));
    drag(&mut pr, at(30, 110));
    release(&mut pr, at(30, 110));
    assert_eq!(*pr.state(), State::Idle);
    assert_eq!(pr.score().notes.len(), 2);
}

#[test]
fn delete_removes_the_selection_and_no_other_note() {
    let mut pr = editor_with_two_notes();
    draw_note(&mut pr, 0, 4, 60);
    draw_note(&mut pr, 10, 12, 60);
    press(&mut pr, at(1, 59));
    drag(&mut pr, at(3, 61));
    release(&mut pr, at(3, 61));
    assert_eq!(*pr.state(), State::NotesSelected(vec![note(0, 4, 60), note(0, 4, 60)]));
    assert!(key(&mut pr, KEY_DELETE).is_empty());
    assert_eq!(*pr.state(), State::Idle);
    assert_eq!(pr.score().notes, vec![note(4, 8, 62), note(10, 12, 60)]);
}

#[test]
fn delete_without_a_selection_does_nothing() {
    let mut pr = editor_with_two_notes();
    assert!(key(&mut pr, KEY_DELETE).is_empty());
    assert_eq!(*pr.state(), State::Idle);
    press(&mut pr, at(1, 59));
    key(&mut pr, KEY_DELETE);
    assert_eq!(*pr.state(), State::PointSelected(at(1, 59)));
    assert_eq!(pr.score().notes.len(), 2);
}

#[test]
fn selection_stays_until_delete_or_transport() {
    let mut pr = editor_with_two_notes();
    press(&mut pr, at(1, 59));
    drag(&mut pr, at(3, 61));
    release(&mut pr, at(3, 61));
    let selected = State::NotesSelected(vec![note(0, 4, 60)]);
    assert_eq!(*pr.state(), selected);
    press(&mut pr, at(20, 100));
    drag(&mut pr, at(21, 101));
    release(&mut pr, at(21, 101));
    assert!(tick(&mut pr, 1, 0).is_empty());
    assert!(key(&mut pr, KEY_SAVE).is_empty());
    assert!(key(&mut pr, 0x10).is_empty());
    assert_eq!(*pr.state(), selected);
    assert_eq!(pr.score().notes.len(), 2);
    assert_eq!(key(&mut pr, KEY_TRANSPORT), vec![Command::SubTime]);
    assert_eq!(*pr.state(), State::Playing(0, -1));
}

#[test]
fn transport_key_starts_and_stops_playback() {
    let mut pr = editor();
    assert_eq!(key(&mut pr, KEY_TRANSPORT), vec![Command::SubTime]);
    assert_eq!(*pr.state(), State::Playing(0, -1));
    assert_eq!(key(&mut pr, KEY_TRANSPORT), vec![Command::Stop, Command::UnsubTime]);
    assert_eq!(*pr.state(), State::Idle);
}

#[test]
fn playback_starts_at_the_tick_before_the_play_position() {
    let mut pr = editor();
    press(&mut pr, at(8, 60));
    release(&mut pr, at(8, 60));
    assert_eq!(key(&mut pr, KEY_TRANSPORT), vec![Command::SubTime]);
    assert_eq!(*pr.state(), State::Playing(HALF, 7));
    key(&mut pr, KEY_TRANSPORT);
    press(&mut pr, Vector2::new(ONE + HALF, 0));
    release(&mut pr, at(0, 0));
    assert_eq!(pr.play_pos(), -10240);
    key(&mut pr, KEY_TRANSPORT);
    assert_eq!(*pr.state(), State::Playing(-10240, -4));
}

#[test]
fn transport_key_starts_playback_from_any_state() {
    let mut pr = editor();
    key(&mut pr, KEY_PENCIL);
    press(&mut pr, at(2, 60));
    drag(&mut pr, at(6, 60));
    assert_eq!(key(&mut pr, KEY_TRANSPORT), vec![Command::SubTime]);
    assert_eq!(*pr.state(), State::Playing(0, -1));
    assert!(pr.score().notes.is_empty());
}

#[test]
fn playback_sends_each_event_once_in_score_order() {
    let mut pr = editor_with_two_notes();
    let a = note(0, 4, 60);
    let b = note(4, 8, 62);
    assert_eq!(key(&mut pr, KEY_TRANSPORT), vec![Command::SubTime]);
    assert_eq!(tick(&mut pr, 0, 0), vec![Command::NoteOn(a)]);
    assert_eq!(*pr.state(), State::Playing(0, 0));
    assert!(tick(&mut pr, 0, 1_000_000).is_empty());
    assert_eq!(*pr.state(), State::Playing(65, 0));
    assert!(tick(&mut pr, 0, 100_000_000).is_empty());
    assert_eq!(*pr.state(), State::Playing(6553, 1));
    assert_eq!(tick(&mut pr, 0, 250_000_000), vec![Command::NoteOff(a), Command::NoteOn(b)]);
    assert_eq!(*pr.state(), State::Playing(16384, 4));
    assert!(tick(&mut pr, 0, 260_000_000).is_empty());
    assert!(tick(&mut pr, 0, 300_000_000).is_empty());
    assert_eq!(tick(&mut pr, 0, 500_000_000), vec![Command::NoteOff(b)]);
    assert_eq!(*pr.state(), State::Playing(HALF, 8));
    assert!(tick(&mut pr, 0, 510_000_000).is_empty());
    assert!(tick(&mut pr, 3, 0).is_empty());
    assert_eq!(*pr.state(), State::Playing(3 * ONE, 48));
    assert_eq!(pr.play_pos(), 0);
    assert_eq!(pr.score().notes, vec![a, b]);
}

#[test]
fn playback_of_four_notes_at_ticks_0_4_4_8() {
    let mut pr = editor();
    draw_note(&mut pr, 0, 2, 40);
    draw_note(&mut pr, 4, 6, 50);
    draw_note(&mut pr, 4, 6, 45);
    draw_note(&mut pr, 8, 10, 40);
    let n = pr.score().notes.clone();
    key(&mut pr, KEY_TRANSPORT);
    let mut all = Vec::new();
    for step in 0..=40u32 {
        all.extend(tick(&mut pr, 0, step * 15_625_000));
    }
    assert_eq!(
        all,
        vec![
            Command::NoteOn(n[0]),
            Command::NoteOff(n[0]),
            Command::NoteOn(n[1]),
            Command::NoteOn(n[2]),
            Command::NoteOff(n[1]),
            Command::NoteOff(n[2]),
            Command::NoteOn(n[3]),
            Command::NoteOff(n[3]),
        ]
    );
}

#[test]
fn playback_does_not_go_back_to_a_tick_that_has_passed() {
    let mut pr = editor_with_two_notes();
    key(&mut pr, KEY_TRANSPORT);
    assert_eq!(tick(&mut pr, 0, 500_000_000), vec![Command::NoteOff(note(4, 8, 62))]);
    assert!(tick(&mut pr, 0, 250_000_000).is_empty());
    assert_eq!(*pr.state(), State::Playing(16384, 8));
    assert!(tick(&mut pr, 0, 0).is_empty());
    assert_eq!(*pr.state(), State::Playing(0, 8));
}

#[test]
fn playback_skips_the_ticks_that_were_jumped_over() {
    let mut pr = editor_with_two_notes();
    key(&mut pr, KEY_TRANSPORT);
    assert_eq!(tick(&mut pr, 0, 0), vec![Command::NoteOn(note(0, 4, 60))]);
    assert_eq!(tick(&mut pr, 0, 500_000_000), vec![Command::NoteOff(note(4, 8, 62))]);
}

#[test]
fn time_that_does_not_fit_is_ignored() {
    let mut pr = editor();
    key(&mut pr, KEY_TRANSPORT);
    assert!(tick(&mut pr, u64::MAX, 0).is_empty());
    assert_eq!(*pr.state(), State::Playing(0, -1));
}

#[test]
fn events_out_of_place_are_ignored() {
    let mut pr = editor_with_two_notes();
    drag(&mut pr, at(3, 60));
    assert_eq!(*pr.state(), State::Idle);
    release(&mut pr, at(3, 60));
    assert_eq!(*pr.state(), State::Idle);
    assert!(tick(&mut pr, 1, 0).is_empty());
    assert_eq!(*pr.state(), State::Idle);
    assert!(key(&mut pr, KEY_SAVE).is_empty());
    assert!(key(&mut pr, 0xffff).is_empty());
    assert_eq!(*pr.state(), State::Idle);
    key(&mut pr, KEY_TRANSPORT);
    press(&mut pr, at(3, 60));
    drag(&mut pr, at(5, 60));
    release(&mut pr, at(5, 60));
    assert_eq!(*pr.state(), State::Playing(0, -1));
    assert_eq!(pr.score().notes, vec![note(0, 4, 60), note(4, 8, 62)]);
    assert_eq!(pr.play_pos(), 0);
}

#[test]
fn press_while_drawing_is_ignored() {
    let mut pr = editor();
    key(&mut pr, KEY_PENCIL);
    press(&mut pr, at(2, 60));
    press(&mut pr, at(8, 70));
    assert_eq!(*pr.state(), State::Drawing(Brick { time: (2 * ONE, 2 * ONE), pitch: 60 * ONE }));
}

#[test]
fn resize_sets_the_viewport() {
    let mut pr = PianoRoll::new();
    let view = pr.grid().view;
    assert!(send(&mut pr, Msg::Resized { width: 800 * ONE, height: 600 * ONE }).is_empty());
    assert_eq!(pr.grid().size, Vector2::new(800 * ONE, 600 * ONE));
    assert_eq!(pr.grid().view, view);
    assert_eq!(*pr.state(), State::Idle);
    press(&mut pr, at(0, 0));
    send(&mut pr, Msg::Resized { width: 0, height: 0 });
    assert_eq!(pr.grid().size, Vector2::new(0, 0));
    assert_eq!(*pr.state(), State::PointSelected(at(0, 0)));
}

#[test]
fn press_without_a_viewport_starts_no_brick() {
    let mut pr = PianoRoll::new();
    send(&mut pr, Msg::Resized { width: 0, height: 0 });
    key(&mut pr, KEY_PENCIL);
    press(&mut pr, at(0, 60));
    assert_eq!(*pr.state(), State::Idle);
}

#[test]
fn release_without_a_viewport_goes_idle_and_keeps_the_play_position() {
    let mut pr = editor();
    press(&mut pr, at(8, 60));
    release(&mut pr, at(8, 60));
    assert_eq!(pr.play_pos(), HALF);
    send(&mut pr, Msg::Resized { width: 0, height: 0 });
    press(&mut pr, at(0, 60));
    assert_eq!(*pr.state(), State::PointSelected(at(0, 60)));
    release(&mut pr, at(0, 60));
    assert_eq!(*pr.state(), State::Idle);
    assert_eq!(pr.play_pos(), HALF);
}

#[test]
fn frame_without_a_viewport_selects_nothing_and_goes_idle() {
    let mut pr = PianoRoll::new();
    send(&mut pr, Msg::Resized { width: 0, height: 0 });
    press(&mut pr, at(0, 60));
    drag(&mut pr, at(1, 61));
    assert_eq!(*pr.state(), State::SelectFrame(at(0, 60), at(1, 61)));
    release(&mut pr, at(0, 60));
    assert_eq!(*pr.state(), State::Idle);
    let mut pr = editor_with_two_notes();
    send(&mut pr, Msg::Resized { width: 196 * ONE, height: 0 });
    press(&mut pr, at(0, 0));
    drag(&mut pr, at(100, 200));
    release(&mut pr, at(0, 0));
    assert_eq!(*pr.state(), State::Idle);
    assert_eq!(pr.score().notes.len(), 2);
}

#[test]
fn release_sets_the_play_position_on_a_viewport_without_height() {
    let mut pr = PianoRoll::new();
    send(&mut pr, Msg::Resized { width: 1024 * ONE, height: 0 });
    press(&mut pr, Vector2::new(512 * ONE, 0));
    release(&mut pr, Vector2::new(512 * ONE, 0));
    assert_eq!(*pr.state(), State::Idle);
    assert_eq!(pr.play_pos(), 385024);
}

#[test]
fn release_ends_a_brick_without_a_viewport() {
    let mut pr = editor();
    key(&mut pr, KEY_PENCIL);
    press(&mut pr, at(2, 60));
    drag(&mut pr, at(6, 60));
    send(&mut pr, Msg::Resized { width: 0, height: 0 });
    drag(&mut pr, at(9, 60));
    release(&mut pr, at(9, 60));
    assert_eq!(*pr.state(), State::Idle);
    assert_eq!(pr.score().notes, vec![note(2, 6, 60)]);
}

#[test]
fn steps_act_in_their_own_state_alone() {
    let mut pr = editor_with_two_notes();
    pr.st_set_time();
    pr.st_select_framed();
    pr.st_create_brick();
    assert_eq!(*pr.state(), State::Idle);
    assert_eq!(pr.score().notes.len(), 2);
    pr.st_draw_brick(at(2, 60));
    assert_eq!(*pr.state(), State::Idle);
    pr.st_select_point(at(8, 60));
    assert_eq!(*pr.state(), State::PointSelected(at(8, 60)));
    pr.st_select_framed();
    pr.st_create_brick();
    assert_eq!(*pr.state(), State::PointSelected(at(8, 60)));
    pr.st_set_time();
    assert_eq!(*pr.state(), State::Idle);
    assert_eq!(pr.play_pos(), HALF);
    pr.on_left_press(at(3, 58));
    pr.on_left_drag(at(5, 63));
    pr.st_set_time();
    pr.st_create_brick();
    assert_eq!(*pr.state(), State::SelectFrame(at(3, 58), at(5, 63)));
    pr.on_left_release();
    assert_eq!(*pr.state(), State::NotesSelected(vec![note(0, 4, 60), note(4, 8, 62)]));
    let mut cmds = Vec::new();
    pr.on_time(1, 0, &mut cmds);
    pr.on_key_press(KEY_DELETE, &mut cmds);
    assert!(cmds.is_empty());
    assert!(pr.score().notes.is_empty());
    pr.on_key_press(KEY_TRANSPORT, &mut cmds);
    pr.on_time(0, 0, &mut cmds);
    assert_eq!(cmds, vec![Command::SubTime]);
    assert_eq!(*pr.state(), State::Playing(HALF, 8));
}

#[test]
fn wheel_zooms_time_and_with_the_modifier_pitch() {
    let mut pr = PianoRoll::new();
    let position = Vector2::new(0, 384 * ONE);
    assert!(send(&mut pr, Msg::MouseWheel { position, ctrl: false, factor: 70123 }).is_empty());
    assert_eq!(
        pr.grid().view,
        (Vector2::new(-16384, 31 * ONE), Vector2::new(842622, 155 * ONE))
    );
    assert!(send(&mut pr, Msg::MouseWheel { position, ctrl: true, factor: 70123 }).is_empty());
    assert_eq!(
        pr.grid().view,
        (Vector2::new(-16384, 1747222), Vector2::new(842622, 10442474))
    );
    send(&mut pr, Msg::MouseWheel { position, ctrl: true, factor: 61249 });
    send(&mut pr, Msg::MouseWheel { position, ctrl: false, factor: 61249 });
    assert_eq!(
        pr.grid().view,
        (Vector2::new(-16384, 1747222), Vector2::new(842622, 10442474))
    );
    assert_eq!(*pr.state(), State::Idle);
}

#[test]
fn right_drag_pans() {
    let mut pr = PianoRoll::new();
    let vector = Vector2::new(100 * ONE, 100 * ONE);
    assert!(send(&mut pr, Msg::RightDrag { vector }).is_empty());
    assert_eq!(pr.grid().view, (Vector2::new(-94784, 973483), Vector2::new(708032, 9099947)));
    let vector = Vector2::new(0, 400 * ONE);
    send(&mut pr, Msg::RightDrag { vector });
    assert_eq!(pr.grid().view, (Vector2::new(-94784, 973483), Vector2::new(708032, 9099947)));
    assert_eq!(*pr.state(), State::Idle);
}

#[test]
fn view_moves_in_every_state() {
    let mut pr = editor();
    key(&mut pr, KEY_PENCIL);
    press(&mut pr, at(2, 60));
    let state = pr.state().clone();
    let size = pr.grid().size;
    send(&mut pr, Msg::RightDrag { vector: Vector2::new(ONE, 0) });
    assert_eq!(pr.grid().view.0.x, -16384 - 4096);
    send(&mut pr, Msg::MouseWheel { position: Vector2::new(0, 0), ctrl: false, factor: 2 * ONE });
    assert_eq!(pr.grid().view.1.x - pr.grid().view.0.x, 2 * 802816);
    assert_eq!(*pr.state(), state);
    assert_eq!(pr.grid().size, size);
}
