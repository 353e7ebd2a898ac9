use pianoroll::fixed::ONE;
use pianoroll::ui::{Grid, Style, MIN_PITCH_SPAN, PITCH_CEILING, PITCH_FLOOR};
use pianoroll::Vector2;

fn v(x: i64, y: i64) -> Vector2 {
    Vector2::new(x, y)
}

fn start_grid() -> Grid {
    Grid::new(v(1024 * ONE, 768 * ONE), (v(-16384, 31 * ONE), v(12 * ONE, 155 * ONE)))
}

#[test]
fn new_grid_is_dark_with_four_beats() {
    let g = start_grid();
    assert_eq!(g.size, v(1024 * ONE, 768 * ONE));
    assert_eq!(g.view, (v(-16384, 31 * ONE), v(12 * ONE, 155 * ONE)));
    assert_eq!(g.style, Style::Dark);
    assert_eq!(g.beats, 4);
    assert_eq!(g.thin_width, ONE);
    assert_eq!(g.thick_width, 2 * ONE);
}

#[test]
fn limits_are_eight_octaves_of_thirty_one_steps() {
    assert_eq!(PITCH_FLOOR, 0);
    assert_eq!(PITCH_CEILING, 248 * ONE);
    assert_eq!(MIN_PITCH_SPAN, 248 * ONE);
}

#[test]
fn view_position_maps_corners_to_corners() {
    let g = start_grid();
    assert_eq!(g.view_position(v(0, 0)), Some(v(-16384, 31 * ONE)));
    assert_eq!(g.view_position(v(1024 * ONE, 768 * ONE)), Some(v(12 * ONE, 155 * ONE)));
}

#[test]
fn view_position_is_linear_in_between() {
    let g = start_grid();
    assert_eq!(g.view_position(v(512 * ONE, 384 * ONE)), Some(v(385024, 93 * ONE)));
    assert_eq!(g.view_position(v(100 * ONE, 100 * ONE)), Some(v(62016, 3089749)));
}

#[test]
fn view_position_goes_on_outside_the_viewport() {
    let g = start_grid();
    assert_eq!(g.view_position(v(-1024 * ONE, 1536 * ONE)), Some(v(-819200, 279 * ONE)));
}

#[test]
fn scale_vector_has_no_offset() {
    let g = start_grid();
    assert_eq!(g.scale_vector(v(0, 0)), Some(v(0, 0)));
    assert_eq!(g.scale_vector(v(1024 * ONE, 768 * ONE)), Some(v(802816, 124 * ONE)));
    assert_eq!(g.scale_vector(v(-10 * ONE, 7 * ONE)), Some(v(-7840, 74069)));
}

#[test]
fn viewport_without_size_has_no_positions() {
    let mut g = start_grid();
    g.size = v(0, 768 * ONE);
    assert_eq!(g.view_position(v(1, 1)), None);
    assert_eq!(g.scale_vector(v(1, 1)), None);
    g.size = v(1024 * ONE, -1);
    assert_eq!(g.view_position(v(1, 1)), None);
    assert_eq!(g.scale_vector(v(1, 1)), None);
}

#[test]
fn position_that_does_not_fit_is_none() {
    let g = Grid::new(v(1, 1), (v(0, 0), v(i64::MAX, i64::MAX)));
    assert_eq!(g.view_position(v(2, 0)), None);
    assert_eq!(g.view_position(v(1, 1)), Some(v(i64::MAX, i64::MAX)));
    assert_eq!(g.scale_vector(v(0, -2)), None);
}

#[test]
fn zoom_out_is_carried_out_below_the_minimum_span() {
    let mut g = start_grid();
    g.scale_y(384 * ONE, 70123);
    assert_eq!(g.view, (v(-16384, 1747222), v(12 * ONE, 10442474)));
    let mut g = start_grid();
    g.scale_x(0, 70123);
    assert_eq!(g.view, (v(-16384, 31 * ONE), v(842622, 155 * ONE)));
}

#[test]
fn zoom_out_keeps_the_fixed_point_in_place() {
    let mut g = start_grid();
    let before = g.view_position(v(512 * ONE, 384 * ONE)).unwrap();
    g.scale_y(384 * ONE, 2 * ONE);
    g.scale_x(512 * ONE, 2 * ONE);
    assert_eq!(g.view_position(v(512 * ONE, 384 * ONE)), Some(before));
    assert_eq!(g.view.1.x - g.view.0.x, 2 * 802816);
    assert_eq!(g.view.1.y - g.view.0.y, 2 * 124 * ONE);
}

#[test]
fn zoom_in_stops_at_the_minimum_span() {
    let mut g = start_grid();
    g.scale_y(384 * ONE, 61249);
    assert_eq!(g, start_grid());
    g.scale_x(256 * ONE, 61249);
    assert_eq!(g, start_grid());
    g.scale_x(256 * ONE, 1);
    assert_eq!(g, start_grid());
}

#[test]
fn zoom_in_is_carried_out_down_to_the_minimum_span() {
    let mut g = Grid::new(v(1024 * ONE, 768 * ONE), (v(0, 0), v(200 * ONE, 600 * ONE)));
    g.scale_x(512 * ONE, ONE / 2);
    assert_eq!(g.view, (v(50 * ONE, 0), v(150 * ONE, 600 * ONE)));
    g.scale_y(0, ONE / 2);
    assert_eq!(g.view, (v(50 * ONE, 0), v(150 * ONE, 300 * ONE)));
    g.scale_y(0, ONE / 2);
    assert_eq!(g.view, (v(50 * ONE, 0), v(150 * ONE, 300 * ONE)));
    g.scale_x(512 * ONE, ONE / 2);
    assert_eq!(g.view, (v(50 * ONE, 0), v(150 * ONE, 300 * ONE)));
}

#[test]
fn zoom_in_that_would_end_below_the_minimum_span_is_held_back() {
    let mut g = Grid::new(v(1024 * ONE, 768 * ONE), (v(0, 0), v(65 * ONE, 249 * ONE)));
    let same = g;
    g.scale_y(0, 61249);
    assert_eq!(g, same);
    g.scale_x(0, 61249);
    assert_eq!(g, same);
    g.scale_y(384 * ONE, 0);
    g.scale_x(512 * ONE, 0);
    assert_eq!(g, same);
    g.scale_y(384 * ONE, -ONE);
    g.scale_x(512 * ONE, -ONE);
    assert_eq!(g, same);
}

#[test]
fn zoom_in_that_ends_above_the_minimum_span_is_carried_out() {
    let mut g = Grid::new(v(1024 * ONE, 768 * ONE), (v(0, 0), v(ONE, 280 * ONE)));
    g.scale_y(384 * ONE, 61249);
    assert_eq!(g.view, (v(0, 600180), v(ONE, 17749900)));
    assert!(g.view.1.y - g.view.0.y >= 248 * ONE);
}

#[test]
fn zoom_in_may_end_exactly_at_the_minimum_span() {
    let mut g = Grid::new(v(1024 * ONE, 768 * ONE), (v(0, 0), v(128 * ONE, 496 * ONE)));
    g.scale_x(0, ONE / 2);
    g.scale_y(0, ONE / 2);
    assert_eq!(g.view, (v(0, 0), v(64 * ONE, 248 * ONE)));
    let same = g;
    g.scale_x(0, ONE - 1);
    g.scale_y(0, ONE - 1);
    assert_eq!(g, same);
    let mut g = Grid::new(v(1024 * ONE, 768 * ONE), (v(0, 0), v(128 * ONE - 1, 496 * ONE - 1)));
    let same = g;
    g.scale_x(0, ONE / 2);
    g.scale_y(0, ONE / 2);
    assert_eq!(g, same);
}

#[test]
fn zoom_never_collapses_the_window() {
    let mut g = start_grid();
    g.scale_x(0, 16 * ONE);
    g.scale_y(0, 16 * ONE);
    let wide = g;
    g.scale_x(512 * ONE, 0);
    g.scale_y(384 * ONE, 0);
    assert_eq!(g, wide);
    g.scale_x(512 * ONE, 1);
    g.scale_y(384 * ONE, 1);
    assert_eq!(g, wide);
}

#[test]
fn view_time_needs_the_width_alone() {
    let mut g = start_grid();
    assert_eq!(g.view_time(512 * ONE), Some(385024));
    g.size = v(1024 * ONE, 0);
    assert_eq!(g.view_time(512 * ONE), Some(385024));
    assert_eq!(g.view_position(v(512 * ONE, 0)), None);
    g.size = v(0, 768 * ONE);
    assert_eq!(g.view_time(512 * ONE), None);
}

#[test]
fn zoom_by_one_changes_nothing() {
    let mut g = start_grid();
    g.scale_x(100 * ONE, ONE);
    g.scale_y(100 * ONE, ONE);
    assert_eq!(g, start_grid());
}

#[test]
fn zoom_without_viewport_changes_nothing() {
    let mut g = start_grid();
    g.size = v(0, 0);
    let same = g;
    g.scale_x(0, 2 * ONE);
    g.scale_y(0, 2 * ONE);
    assert_eq!(g, same);
}

#[test]
fn zoom_that_does_not_fit_changes_nothing() {
    let mut g = Grid::new(v(ONE, ONE), (v(-(1 << 62), -(1 << 62)), v(1 << 62, 1 << 62)));
    let same = g;
    g.scale_x(0, 4 * ONE);
    g.scale_y(ONE, 4 * ONE);
    assert_eq!(g, same);
}

#[test]
fn pan_moves_the_window_against_the_drag() {
    let mut g = start_grid();
    g.pan(v(100 * ONE, 100 * ONE));
    assert_eq!(g.view, (v(-94784, 973483), v(708032, 9099947)));
    let mut g = start_grid();
    g.pan(v(-100 * ONE, -100 * ONE));
    assert_eq!(g.view, (v(62016, 3089750), v(864832, 11216214)));
}

#[test]
fn pan_keeps_the_spans() {
    let mut g = start_grid();
    g.pan(v(-333 * ONE, 77 * ONE));
    assert_eq!(g.view.1.x - g.view.0.x, 802816);
    assert_eq!(g.view.1.y - g.view.0.y, 124 * ONE);
}

#[test]
fn pan_does_not_go_below_the_floor() {
    let mut g = start_grid();
    g.pan(v(0, 192 * ONE));
    assert_eq!(g.view, (v(-16384, 0), v(12 * ONE, 124 * ONE)));
    let mut g = start_grid();
    g.pan(v(0, 193 * ONE));
    assert_eq!(g, start_grid());
    g.pan(v(0, 400 * ONE));
    assert_eq!(g, start_grid());
}

#[test]
fn pan_does_not_go_above_the_ceiling() {
    let mut g = start_grid();
    g.pan(v(0, -576 * ONE));
    assert_eq!(g.view, (v(-16384, 124 * ONE), v(12 * ONE, 248 * ONE)));
    let mut g = start_grid();
    g.pan(v(0, -577 * ONE));
    assert_eq!(g, start_grid());
    g.pan(v(0, -700 * ONE));
    assert_eq!(g, start_grid());
}

#[test]
fn pan_of_time_goes_on_where_pitch_is_held() {
    let mut g = start_grid();
    g.pan(v(100 * ONE, 400 * ONE));
    assert_eq!(g.view, (v(-94784, 31 * ONE), v(708032, 155 * ONE)));
    g.pan(v(-1_000_000 * ONE, -700 * ONE));
    assert_eq!(g.view.0.y, 31 * ONE);
    assert_eq!(g.view.1.y, 155 * ONE);
    assert_eq!(g.view.0.x, -94784 + 784_000_000);
}

#[test]
fn pan_lets_a_window_below_the_floor_come_back_up() {
    let mut g = Grid::new(v(768 * ONE, 768 * ONE), (v(0, -50 * ONE), v(ONE, 74 * ONE)));
    g.pan(v(0, -6 * ONE));
    assert_eq!(g.view.0.y, -50 * ONE + 63488);
    g.pan(v(0, 6 * ONE));
    assert_eq!(g.view.0.y, -50 * ONE + 63488);
}

#[test]
fn pan_without_viewport_changes_nothing() {
    let mut g = start_grid();
    g.size = v(0, 0);
    let same = g;
    g.pan(v(5 * ONE, 5 * ONE));
    assert_eq!(g, same);
}

#[test]
fn style_inverse_swaps_the_themes() {
    assert_eq!(Style::Light.inverse(), Style::Dark);
    assert_eq!(Style::Dark.inverse(), Style::Light);
    assert_eq!(Style::Dark.inverse().inverse(), Style::Dark);
}
