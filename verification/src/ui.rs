//! The grid: the window of musical space that the viewport shows, with the
//! maps between pixels and musical coordinates, zooming and panning.

use vstd::prelude::*;
use crate::fixed::{fits, mul_div_wide, narrow, Fixed, ONE};
use crate::geometry::Vector2;

verus! {

/// A colour, as its red, green and blue in sRGB.
#[derive(Debug, Clone, Copy, PartialEq, Eq, Structural)]
pub struct Color {
    pub r: u8,
    pub g: u8,
    pub b: u8,
}

/// The colour theme.
#[derive(Debug, Clone, Copy, PartialEq, Eq, Structural)]
pub enum Style {
    Light,
    Dark,
}

impl Style {
    /// The other theme.
    pub open spec fn inverted(self) -> Style {
        match self {
            Style::Light => Style::Dark,
            Style::Dark => Style::Light,
        }
    }

    pub fn inverse(&self) -> (r: Style)
        ensures
            r == self.inverted(),
    {
        match *self {
            Style::Light => Style::Dark,
            Style::Dark => Style::Light,
        }
    }

    /// Body text.
    pub open spec fn base0_of(self) -> Color {
        match self {
            Style::Light => (Color { r: 0x83, g: 0x94, b: 0x96 }),
            Style::Dark => (Color { r: 0x65, g: 0x7b, b: 0x83 }),
        }
    }

    pub fn base0(&self) -> (c: Color)
        ensures
            c == self.base0_of(),
    {
        match *self {
            Style::Light => Color { r: 0x83, g: 0x94, b: 0x96 },
            Style::Dark => Color { r: 0x65, g: 0x7b, b: 0x83 },
        }
    }

    /// Text that is to stand out less.
    pub open spec fn base1_of(self) -> Color {
        match self {
            Style::Light => (Color { r: 0x93, g: 0xa1, b: 0xa1 }),
            Style::Dark => (Color { r: 0x58, g: 0x6e, b: 0x75 }),
        }
    }

    pub fn base1(&self) -> (c: Color)
        ensures
            c == self.base1_of(),
    {
        match *self {
            Style::Light => Color { r: 0x93, g: 0xa1, b: 0xa1 },
            Style::Dark => Color { r: 0x58, g: 0x6e, b: 0x75 },
        }
    }

    /// The background of what is to stand out.
    pub open spec fn base2_of(self) -> Color {
        match self {
            Style::Light => (Color { r: 0xee, g: 0xe8, b: 0xd5 }),
            Style::Dark => (Color { r: 0x07, g: 0x36, b: 0x42 }),
        }
    }

    pub fn base2(&self) -> (c: Color)
        ensures
            c == self.base2_of(),
    {
        match *self {
            Style::Light => Color { r: 0xee, g: 0xe8, b: 0xd5 },
            Style::Dark => Color { r: 0x07, g: 0x36, b: 0x42 },
        }
    }

    /// The background.
    pub open spec fn base3_of(self) -> Color {
        match self {
            Style::Light => (Color { r: 0xfd, g: 0xf6, b: 0xe3 }),
            Style::Dark => (Color { r: 0x00, g: 0x2b, b: 0x36 }),
        }
    }

    pub fn base3(&self) -> (c: Color)
        ensures
            c == self.base3_of(),
    {
        match *self {
            Style::Light => Color { r: 0xfd, g: 0xf6, b: 0xe3 },
            Style::Dark => Color { r: 0x00, g: 0x2b, b: 0x36 },
        }
    }

    /// The accent colour yellow, the same in both themes.
    pub open spec fn yellow_of(self) -> Color {
        Color { r: 0xb5, g: 0x89, b: 0x00 }
    }

    pub fn yellow(&self) -> (c: Color)
        ensures
            c == self.yellow_of(),
    {
        Color { r: 0xb5, g: 0x89, b: 0x00 }
    }

    /// The accent colour orange, the same in both themes.
    pub open spec fn orange_of(self) -> Color {
        Color { r: 0xcb, g: 0x4b, b: 0x16 }
    }

    pub fn orange(&self) -> (c: Color)
        ensures
            c == self.orange_of(),
    {
        Color { r: 0xcb, g: 0x4b, b: 0x16 }
    }

    /// The accent colour red, the same in both themes.
    pub open spec fn red_of(self) -> Color {
        Color { r: 0xdc, g: 0x32, b: 0x2f }
    }

    pub fn red(&self) -> (c: Color)
        ensures
            c == self.red_of(),
    {
        Color { r: 0xdc, g: 0x32, b: 0x2f }
    }

    /// The accent colour magenta, the same in both themes.
    pub open spec fn magenta_of(self) -> Color {
        Color { r: 0xd3, g: 0x36, b: 0x82 }
    }

    pub fn magenta(&self) -> (c: Color)
        ensures
            c == self.magenta_of(),
    {
        Color { r: 0xd3, g: 0x36, b: 0x82 }
    }

    /// The accent colour violet, the same in both themes.
    pub open spec fn violet_of(self) -> Color {
        Color { r: 0x6c, g: 0x71, b: 0xc4 }
    }

    pub fn violet(&self) -> (c: Color)
        ensures
            c == self.violet_of(),
    {
        Color { r: 0x6c, g: 0x71, b: 0xc4 }
    }

    /// The accent colour blue, the same in both themes.
    pub open spec fn blue_of(self) -> Color {
        Color { r: 0x26, g: 0x8b, b: 0xd2 }
    }

    pub fn blue(&self) -> (c: Color)
        ensures
            c == self.blue_of(),
    {
        Color { r: 0x26, g: 0x8b, b: 0xd2 }
    }

    /// The accent colour cyan, the same in both themes.
    pub open spec fn cyan_of(self) -> Color {
        Color { r: 0x2a, g: 0xa1, b: 0x98 }
    }

    pub fn cyan(&self) -> (c: Color)
        ensures
            c == self.cyan_of(),
    {
        Color { r: 0x2a, g: 0xa1, b: 0x98 }
    }

    /// The accent colour green, the same in both themes.
    pub open spec fn green_of(self) -> Color {
        Color { r: 0x85, g: 0x99, b: 0x00 }
    }

    pub fn green(&self) -> (c: Color)
        ensures
            c == self.green_of(),
    {
        Color { r: 0x85, g: 0x99, b: 0x00 }
    }
}

/// The number of pitch steps in an octave.
pub const STEPS_PER_OCTAVE: i64 = 31;

/// The number of octaves that the instrument has.
pub const OCTAVES: i64 = 8;

/// The lowest pitch that panning may bring the lower edge of the window to.
pub const PITCH_FLOOR: Fixed = 0;

/// The highest pitch that panning may bring the upper edge of the window to.
pub const PITCH_CEILING: Fixed = OCTAVES * STEPS_PER_OCTAVE * ONE;

/// The span of pitch that no zoom in takes the window below.
pub const MIN_PITCH_SPAN: Fixed = OCTAVES * STEPS_PER_OCTAVE * ONE;

/// No zoom in takes the window below as many measures as the viewport is
/// wide in pixels, divided by this.
pub const TIME_SPAN_DIVISOR: i64 = 16;

/// `floor(v * (hi - lo) / size)`: the length in musical space of a length of
/// `v` pixels, on an axis whose `size` pixels show the interval from `lo` to
/// `hi`.  `None` where `size` is not positive or the length does not fit.
pub open spec fn scale_axis(v: int, lo: int, hi: int, size: int) -> Option<int> {
    if size > 0 && fits(((hi - lo) * v) / size) {
        Some(((hi - lo) * v) / size)
    } else {
        None
    }
}

/// `lo + floor(p * (hi - lo) / size)`: the musical coordinate shown at pixel
/// `p`.  `None` where `size` is not positive or the coordinate does not fit.
pub open spec fn position_axis(p: int, lo: int, hi: int, size: int) -> Option<int> {
    if size > 0 && fits(lo + ((hi - lo) * p) / size) {
        Some(lo + ((hi - lo) * p) / size)
    } else {
        None
    }
}

/// The factor that a zoom by `factor` is carried out with: `factor` itself
/// when it zooms out, or when the span that it leaves, `factor` times the
/// span from `lo` to `hi` rounded down, is not below `min_span`; else 1, so
/// that no zoom in takes the span below the minimum.
pub open spec fn zoom_factor(lo: int, hi: int, factor: int, min_span: int) -> int {
    if factor > ONE || ((hi - lo) * factor) / (ONE as int) >= min_span {
        factor
    } else {
        ONE as int
    }
}

/// The interval from `lo` to `hi` after a zoom by `factor` that holds the
/// musical coordinate under pixel `fixed_point` in place: each bound keeps
/// its side of that coordinate, at `zoom_factor` times its distance (rounded
/// down).  `None` where `size` is not positive or where the coordinate or a
/// new bound does not fit.
pub open spec fn zoom_axis(
    lo: int,
    hi: int,
    size: int,
    fixed_point: int,
    factor: int,
    min_span: int,
) -> Option<(int, int)> {
    let k = zoom_factor(lo, hi, factor, min_span);
    let split = lo + ((hi - lo) * fixed_point) / size;
    let new_lo = split + ((lo - split) * k) / (ONE as int);
    let new_hi = split + ((hi - split) * k) / (ONE as int);
    if size > 0 && fits(split) && fits(new_lo) && fits(new_hi) {
        Some((new_lo, new_hi))
    } else {
        None
    }
}

/// The interval from `lo` to `hi` moved against a drag of `v` pixels.
/// `None` where the drag has no length in musical space or a moved bound
/// does not fit.
pub open spec fn pan_axis(lo: int, hi: int, size: int, v: int) -> Option<(int, int)> {
    match scale_axis(v, lo, hi, size) {
        Some(d) => if fits(lo - d) && fits(hi - d) {
            Some((lo - d, hi - d))
        } else {
            None
        },
        None => None,
    }
}

/// Whether a pan of the pitch axis from `lo` to `new_lo`, with the upper bound
/// arriving at `new_hi`, stays inside the instrument's range: upwards it may
/// not end above the ceiling, downwards not below the floor, and a pan that
/// moves nothing is not carried out.
pub open spec fn pitch_pan_allowed(lo: int, new_lo: int, new_hi: int) -> bool {
    (new_lo > lo && new_hi <= PITCH_CEILING) || (new_lo < lo && new_lo >= PITCH_FLOOR)
}

/// The view transform.
#[derive(Debug, Clone, Copy, PartialEq, Eq)]
pub struct Grid {
    /// The viewport's size, in pixels.
    pub size: Vector2,
    /// Two opposite corners of the window in musical space: the one shown at
    /// pixel (0, 0) and the one shown at pixel `size`.
    pub view: (Vector2, Vector2),
    /// Beats in a measure.
    pub beats: u8,
    pub style: Style,
    /// Line widths, in pixels.
    pub thin_width: Fixed,
    pub thick_width: Fixed,
}

impl Grid {
    /// This grid with another window.
    pub open spec fn with_view(self, view: (Vector2, Vector2)) -> Grid {
        Grid { view, ..self }
    }

    /// This grid with another range on the time axis.
    pub open spec fn with_x(self, x: (int, int)) -> Grid {
        self.with_view(
            (
                Vector2 { x: x.0 as i64, y: self.view.0.y },
                Vector2 { x: x.1 as i64, y: self.view.1.y },
            ),
        )
    }

    /// This grid with another range on the pitch axis.
    pub open spec fn with_y(self, y: (int, int)) -> Grid {
        self.with_view(
            (
                Vector2 { x: self.view.0.x, y: y.0 as i64 },
                Vector2 { x: self.view.1.x, y: y.1 as i64 },
            ),
        )
    }

    /// The displacement in musical space that a displacement of `v` pixels
    /// shows; `None` unless both components have one.
    pub open spec fn scaled(self, v: Vector2) -> Option<Vector2> {
        match (
            scale_axis(v.x as int, self.view.0.x as int, self.view.1.x as int, self.size.x as int),
            scale_axis(v.y as int, self.view.0.y as int, self.view.1.y as int, self.size.y as int),
        ) {
            (Some(x), Some(y)) => Some(Vector2 { x: x as i64, y: y as i64 }),
            _ => None,
        }
    }

    /// The point of musical space shown at pixel `p`; `None` unless both
    /// coordinates have one.
    pub open spec fn positioned(self, p: Vector2) -> Option<Vector2> {
        match (
            position_axis(
                p.x as int,
                self.view.0.x as int,
                self.view.1.x as int,
                self.size.x as int,
            ),
            position_axis(
                p.y as int,
                self.view.0.y as int,
                self.view.1.y as int,
                self.size.y as int,
            ),
        ) {
            (Some(x), Some(y)) => Some(Vector2 { x: x as i64, y: y as i64 }),
            _ => None,
        }
    }

    /// The time shown at pixel column `x`, which needs the time axis alone;
    /// `None` where the viewport has no width or the time does not fit.
    pub open spec fn timed(self, x: Fixed) -> Option<Fixed> {
        match position_axis(
            x as int,
            self.view.0.x as int,
            self.view.1.x as int,
            self.size.x as int,
        ) {
            Some(t) => Some(t as i64),
            None => None,
        }
    }

    /// The span of time that no zoom in takes the window below: the
    /// viewport's width in pixels, divided by 16, as a number of measures.
    pub open spec fn min_time_span(self) -> int {
        self.size.x as int / (TIME_SPAN_DIVISOR as int)
    }

    /// The grid after a zoom of the time axis; unchanged where `zoom_axis`
    /// has no result.
    pub open spec fn zoomed_x(self, fixed_point: Fixed, factor: Fixed) -> Grid {
        match zoom_axis(
            self.view.0.x as int,
            self.view.1.x as int,
            self.size.x as int,
            fixed_point as int,
            factor as int,
            self.min_time_span(),
        ) {
            Some(x) => self.with_x(x),
            None => self,
        }
    }

    /// The grid after a zoom of the pitch axis; unchanged where `zoom_axis`
    /// has no result.
    pub open spec fn zoomed_y(self, fixed_point: Fixed, factor: Fixed) -> Grid {
        match zoom_axis(
            self.view.0.y as int,
            self.view.1.y as int,
            self.size.y as int,
            fixed_point as int,
            factor as int,
            MIN_PITCH_SPAN as int,
        ) {
            Some(y) => self.with_y(y),
            None => self,
        }
    }

    /// The grid after a pan of the time axis alone, which nothing limits but
    /// the range of `Fixed`.
    pub open spec fn panned_x(self, v: Fixed) -> Grid {
        match pan_axis(self.view.0.x as int, self.view.1.x as int, self.size.x as int, v as int) {
            Some(x) => self.with_x(x),
            None => self,
        }
    }

    /// The grid after a pan of the pitch axis alone, which is carried out
    /// only where `pitch_pan_allowed`.
    pub open spec fn panned_y(self, v: Fixed) -> Grid {
        match pan_axis(self.view.0.y as int, self.view.1.y as int, self.size.y as int, v as int) {
            Some(y) => if pitch_pan_allowed(self.view.0.y as int, y.0, y.1) {
                self.with_y(y)
            } else {
                self
            },
            None => self,
        }
    }

    /// The grid after a drag of `vector` pixels: the window moves against the
    /// drag, each axis by itself.
    pub open spec fn panned(self, vector: Vector2) -> Grid {
        self.panned_y(vector.y).panned_x(vector.x)
    }

    /// A grid with the given viewport and window, four beats to a measure and
    /// the dark theme.
    pub fn new(size: Vector2, view: (Vector2, Vector2)) -> (g: Grid)
        ensures
            g == (Grid {
                size,
                view,
                style: Style::Dark,
                beats: 4,
                thin_width: ONE,
                thick_width: (2 * ONE) as i64,
            }),
    {
        Grid { size, view, style: Style::Dark, beats: 4, thin_width: ONE, thick_width: 2 * ONE }
    }

    /// Maps a displacement on the screen to the displacement in musical space
    /// that it shows.
    pub fn scale_vector(&self, position: Vector2) -> (r: Option<Vector2>)
        ensures
            r == self.scaled(position),
    {
        let x: Option<Fixed> = scale_length(position.x, self.view.0.x, self.view.1.x, self.size.x);
        let y: Option<Fixed> = scale_length(position.y, self.view.0.y, self.view.1.y, self.size.y);
        match (x, y) {
            (Some(x), Some(y)) => Some(Vector2 { x, y }),
            _ => None,
        }
    }

    /// Maps a pixel to the point of musical space that is shown there.
    pub fn view_position(&self, position: Vector2) -> (r: Option<Vector2>)
        ensures
            r == self.positioned(position),
    {
        let x: Option<Fixed> = locate(position.x, self.view.0.x, self.view.1.x, self.size.x);
        let y: Option<Fixed> = locate(position.y, self.view.0.y, self.view.1.y, self.size.y);
        match (x, y) {
            (Some(x), Some(y)) => Some(Vector2 { x, y }),
            _ => None,
        }
    }

    /// Maps a pixel column to the time that is shown there.
    pub fn view_time(&self, x: Fixed) -> (r: Option<Fixed>)
        ensures
            r == self.timed(x),
    {
        locate(x, self.view.0.x, self.view.1.x, self.size.x)
    }

    /// Zooms the time axis by `factor` around the time shown at pixel column
    /// `fixed_point`.  A zoom in that would leave fewer measures than
    /// `min_time_span` is not carried out.
    pub fn scale_x(&mut self, fixed_point: Fixed, factor: Fixed)
        ensures
            *final(self) == old(self).zoomed_x(fixed_point, factor),
    {
        let min_span: Fixed = if self.size.x > 0 { self.size.x / TIME_SPAN_DIVISOR } else { 0 };
        match zoom(self.view.0.x, self.view.1.x, self.size.x, fixed_point, factor, min_span) {
            Some((lo, hi)) => {
                self.view.0.x = lo;
                self.view.1.x = hi;
            },
            None => {},
        }
    }

    /// Zooms the pitch axis by `factor` around the pitch shown at pixel row
    /// `fixed_point`.  A zoom in that would leave fewer steps than
    /// `MIN_PITCH_SPAN` is not carried out.
    pub fn scale_y(&mut self, fixed_point: Fixed, factor: Fixed)
        ensures
            *final(self) == old(self).zoomed_y(fixed_point, factor),
    {
        match zoom(self.view.0.y, self.view.1.y, self.size.y, fixed_point, factor, MIN_PITCH_SPAN) {
            Some((lo, hi)) => {
                self.view.0.y = lo;
                self.view.1.y = hi;
            },
            None => {},
        }
    }

    /// Moves the window against a drag of `vector` pixels.  The pitch axis
    /// stays where the move would leave the instrument's range; the time axis
    /// moves all the same.
    pub fn pan(&mut self, vector: Vector2)
        ensures
            *final(self) == old(self).panned(vector),
    {
        match shift(self.view.0.y, self.view.1.y, self.size.y, vector.y) {
            Some((lo, hi)) => {
                if (lo > self.view.0.y && hi <= PITCH_CEILING) || (lo < self.view.0.y && lo
                    >= PITCH_FLOOR) {
                    self.view.0.y = lo;
                    self.view.1.y = hi;
                }
            },
            None => {},
        }
        match shift(self.view.0.x, self.view.1.x, self.size.x, vector.x) {
            Some((lo, hi)) => {
                self.view.0.x = lo;
                self.view.1.x = hi;
            },
            None => {},
        }
    }
}

/// The length in musical space of `v` pixels on one axis.
fn scale_length(v: Fixed, lo: Fixed, hi: Fixed, size: Fixed) -> (r: Option<Fixed>)
    ensures
        r == (match scale_axis(v as int, lo as int, hi as int, size as int) {
            Some(d) => Some(d as i64),
            None => None,
        }),
{
    if size <= 0 {
        return None;
    }
    let span: i128 = hi as i128 - lo as i128;
    narrow(mul_div_wide(span, v, size))
}

/// The musical coordinate shown at pixel `p` on one axis.
fn locate(p: Fixed, lo: Fixed, hi: Fixed, size: Fixed) -> (r: Option<Fixed>)
    ensures
        r == (match position_axis(p as int, lo as int, hi as int, size as int) {
            Some(c) => Some(c as i64),
            None => None,
        }),
{
    if size <= 0 {
        return None;
    }
    let span: i128 = hi as i128 - lo as i128;
    let offset: i128 = mul_div_wide(span, p, size);
    narrow(lo as i128 + offset)
}

/// One axis after a zoom.
fn zoom(
    lo: Fixed,
    hi: Fixed,
    size: Fixed,
    fixed_point: Fixed,
    factor: Fixed,
    min_span: Fixed,
) -> (r: Option<(Fixed, Fixed)>)
    ensures
        r == (match zoom_axis(
            lo as int,
            hi as int,
            size as int,
            fixed_point as int,
            factor as int,
            min_span as int,
        ) {
            Some(z) => Some((z.0 as i64, z.1 as i64)),
            None => None,
        }),
{
    let split: Fixed = match locate(fixed_point, lo, hi, size) {
        Some(s) => s,
        None => { return None; },
    };
    let span: i128 = hi as i128 - lo as i128;
    let k: Fixed = if factor > ONE || mul_div_wide(span, factor, ONE) >= min_span as i128 {
        factor
    } else {
        ONE
    };
    let below: i128 = mul_div_wide(lo as i128 - split as i128, k, ONE);
    let above: i128 = mul_div_wide(hi as i128 - split as i128, k, ONE);
    match (narrow(split as i128 + below), narrow(split as i128 + above)) {
        (Some(new_lo), Some(new_hi)) => Some((new_lo, new_hi)),
        _ => None,
    }
}

/// One axis after a pan.
fn shift(lo: Fixed, hi: Fixed, size: Fixed, v: Fixed) -> (r: Option<(Fixed, Fixed)>)
    ensures
        r == (match pan_axis(lo as int, hi as int, size as int, v as int) {
            Some(z) => Some((z.0 as i64, z.1 as i64)),
            None => None,
        }),
{
    let d: Fixed = match scale_length(v, lo, hi, size) {
        Some(d) => d,
        None => { return None; },
    };
    match (narrow(lo as i128 - d as i128), narrow(hi as i128 - d as i128)) {
        (Some(new_lo), Some(new_hi)) => Some((new_lo, new_hi)),
        _ => None,
    }
}

} // verus!
