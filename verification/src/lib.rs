//! The editing core of a microtonal piano roll: a note collection, the view
//! transform between pixels and musical coordinates, the interaction state
//! machine that turns pointer, wheel and key events into edits, and the
//! playback scheduler that turns elapsed time into note events.
//!
//! Nothing here is a floating-point number: positions, times, pitches and
//! factors are fixed-point numbers with sixteen fractional bits (see
//! `fixed`), so that every contract states an exact value.

pub mod draw;
pub mod fixed;
pub mod geometry;
pub mod input;
pub mod laws;
pub mod msg;
pub mod pianoroll;
pub mod renderer;
pub mod score;
pub mod ui;
pub mod wire;

pub use crate::geometry::{duration_seconds, normalize_square, rects_overlap, Vector2};
pub use crate::msg::{Command, Msg};
pub use crate::pianoroll::{PianoRoll, State, Tool};
pub use crate::score::{Brick, Note, Score};
