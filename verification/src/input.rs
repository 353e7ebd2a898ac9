//! From what the host reports to the events of the editor: the pointer is
//! followed, its y is turned upwards, a move becomes a drag while a button
//! is held, and a press of the left button has to last before it does.

use vstd::prelude::*;
use crate::fixed::{clamp, saturate, Fixed};
use crate::geometry::Vector2;
use crate::msg::Msg;

verus! {

/// How long the left button has to be held before a move of the pointer is
/// a drag, in milliseconds.
pub const DRAG_DELAY: u64 = 50;

/// A button of the pointer.
#[derive(Debug, Clone, Copy, PartialEq, Eq)]
pub enum Button {
    Left,
    Right,
}

/// One report of the host.  Positions are in pixels from the upper left
/// corner of the viewport, with y downwards; `millis` is the time of the
/// report, in milliseconds since any fixed moment.
#[derive(Debug, Clone, Copy, PartialEq, Eq)]
pub enum Raw {
    PointerMoved { position: Vector2, millis: u64 },
    ButtonPressed { button: Button, millis: u64 },
    ButtonReleased { button: Button },
    /// The wheel turned; `factor` is the ratio by which the visible span is
    /// to change.
    Wheel { ctrl: bool, factor: Fixed },
    KeyPressed { scancode: u32 },
    Resized { width: Fixed, height: Fixed },
    /// Playback has been running for this long.
    Time { seconds: u64, nanos: u32 },
}

/// What is known of the pointer.
#[derive(Debug, Clone, Copy, PartialEq, Eq)]
pub struct Pointer {
    /// Where the pointer is, in pixels from the lower left corner of the
    /// viewport, with y upwards.
    pub position: Vector2,
    /// The height of the viewport, in pixels.
    pub height: Fixed,
    /// When the left button went down, while it is held.
    pub left_since: Option<u64>,
    /// Whether the right button is held.
    pub right_held: bool,
}

impl Pointer {
    /// `position` with its y counted upwards from the lower edge of the
    /// viewport.
    pub open spec fn flipped(self, position: Vector2) -> Vector2 {
        Vector2 { x: position.x, y: clamp(self.height - position.y) }
    }

    /// Whether a move at the time `millis` is a drag with the left button:
    /// the button is held and has been for at least `DRAG_DELAY`.
    pub open spec fn drags(self, millis: u64) -> bool {
        self.left_since matches Some(since) && millis - since >= DRAG_DELAY
    }

    /// The event that a move to `position` at the time `millis` is: a drag
    /// with the left button to where the pointer is now, else, with the
    /// right button held, a drag by as far as the pointer has moved, else
    /// none.
    pub open spec fn moved(self, position: Vector2, millis: u64) -> Option<Msg> {
        let to = self.flipped(position);
        if self.drags(millis) {
            Some(Msg::LeftDrag { position: to })
        } else if self.right_held {
            Some(
                Msg::RightDrag {
                    vector: Vector2 {
                        x: clamp(to.x - self.position.x),
                        y: clamp(to.y - self.position.y),
                    },
                },
            )
        } else {
            None
        }
    }

    /// The pointer and the event after one report.
    pub open spec fn fed(self, raw: Raw) -> (Pointer, Option<Msg>) {
        match raw {
            Raw::PointerMoved { position, millis } => (
                Pointer { position: self.flipped(position), ..self },
                self.moved(position, millis),
            ),
            Raw::ButtonPressed { button: Button::Left, millis } => (
                Pointer { left_since: Some(millis), ..self },
                Some(Msg::LeftPressed { position: self.position }),
            ),
            Raw::ButtonPressed { button: Button::Right, millis } => (
                Pointer { right_held: true, ..self },
                None,
            ),
            Raw::ButtonReleased { button: Button::Left } => (
                Pointer { left_since: None, ..self },
                Some(Msg::LeftReleased { position: self.position }),
            ),
            Raw::ButtonReleased { button: Button::Right } => (
                Pointer { right_held: false, ..self },
                None,
            ),
            Raw::Wheel { ctrl, factor } => (
                self,
                Some(Msg::MouseWheel { position: self.position, ctrl, factor }),
            ),
            Raw::KeyPressed { scancode } => (self, Some(Msg::KeyPressed { scancode })),
            Raw::Resized { width, height } => (
                Pointer { height, ..self },
                Some(Msg::Resized { width, height }),
            ),
            Raw::Time { seconds, nanos } => (self, Some(Msg::Time { seconds, nanos })),
        }
    }

    /// A pointer in the lower left corner of a viewport of the given height,
    /// with no button held.
    pub fn new(height: Fixed) -> (p: Pointer)
        ensures
            p == (Pointer {
                position: Vector2 { x: 0, y: 0 },
                height,
                left_since: None,
                right_held: false,
            }),
    {
        Pointer { position: Vector2 { x: 0, y: 0 }, height, left_since: None, right_held: false }
    }

    /// Takes one report of the host and gives the event for the editor, if
    /// it is one.
    pub fn feed(&mut self, raw: Raw) -> (msg: Option<Msg>)
        ensures
            (*final(self), msg) == old(self).fed(raw),
    {
        match raw {
            Raw::PointerMoved { position, millis } => {
                let to = Vector2 {
                    x: position.x,
                    y: saturate(self.height as i128 - position.y as i128),
                };
                let drags: bool = match self.left_since {
                    Some(since) => millis >= since && millis - since >= DRAG_DELAY,
                    None => false,
                };
                let msg = if drags {
                    Some(Msg::LeftDrag { position: to })
                } else if self.right_held {
                    Some(
                        Msg::RightDrag {
                            vector: Vector2 {
                                x: saturate(to.x as i128 - self.position.x as i128),
                                y: saturate(to.y as i128 - self.position.y as i128),
                            },
                        },
                    )
                } else {
                    None
                };
                self.position = to;
                msg
            },
            Raw::ButtonPressed { button, millis } => {
                match button {
                    Button::Left => {
                        self.left_since = Some(millis);
                        Some(Msg::LeftPressed { position: self.position })
                    },
                    Button::Right => {
                        self.right_held = true;
                        None
                    },
                }
            },
            Raw::ButtonReleased { button } => {
                match button {
                    Button::Left => {
                        self.left_since = None;
                        Some(Msg::LeftReleased { position: self.position })
                    },
                    Button::Right => {
                        self.right_held = false;
                        None
                    },
                }
            },
            Raw::Wheel { ctrl, factor } => Some(
                Msg::MouseWheel { position: self.position, ctrl, factor },
            ),
            Raw::KeyPressed { scancode } => Some(Msg::KeyPressed { scancode }),
            Raw::Resized { width, height } => {
                self.height = height;
                Some(Msg::Resized { width, height })
            },
            Raw::Time { seconds, nanos } => Some(Msg::Time { seconds, nanos }),
        }
    }
}

} // verus!
