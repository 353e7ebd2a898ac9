//! What goes into the editor and what comes out of it.

use vstd::prelude::*;
use crate::fixed::Fixed;
use crate::geometry::Vector2;
use crate::score::Note;

verus! {

/// The scancode of the key that selects the arrow tool.
pub const KEY_ARROW: u32 = 0x02;

/// The scancode of the key that selects the pencil tool.
pub const KEY_PENCIL: u32 = 0x03;

/// The scancode of the key that starts and stops playback.
pub const KEY_TRANSPORT: u32 = 0x39;

/// The scancode of the key that deletes the selected notes.
pub const KEY_DELETE: u32 = 0x20;

/// The scancode of the key that is set aside for saving.
pub const KEY_SAVE: u32 = 0x1f;

/// One input event.  Positions and vectors are in pixels, with y upwards.
#[derive(Debug, Clone, Copy, PartialEq, Eq)]
pub enum Msg {
    /// The wheel turned with the pointer at `position`.  `factor` is the
    /// ratio by which the visible span is to change: above 1 it zooms out.
    MouseWheel { position: Vector2, ctrl: bool, factor: Fixed },
    /// The left button went down.
    LeftPressed { position: Vector2 },
    /// The left button went up.
    LeftReleased { position: Vector2 },
    /// The pointer moved to `position` with the left button held.
    LeftDrag { position: Vector2 },
    /// The pointer moved by `vector` with the right button held.
    RightDrag { vector: Vector2 },
    /// Playback has been running for `seconds` whole seconds and `nanos`
    /// nanoseconds.
    Time { seconds: u64, nanos: u32 },
    /// A key went down.
    KeyPressed { scancode: u32 },
    /// The viewport has a new size.
    Resized { width: Fixed, height: Fixed },
}

/// One command to the synthesizer or to the host.
#[derive(Debug, Clone, Copy, PartialEq, Eq)]
pub enum Command {
    NoteOn(Note),
    NoteOff(Note),
    Stop,
    /// Start sending `Msg::Time`.
    SubTime,
    /// Stop sending `Msg::Time`.
    UnsubTime,
    Save,
}

} // verus!
