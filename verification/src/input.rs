//! Raw occurrences reported by the input devices.

use vstd::prelude::*;
use crate::geom::Point;

verus! {

/// What a finger did on the touch screen.
#[derive(Clone, Copy, Debug, PartialEq, Eq, Structural)]
pub enum FingerStatus {
    Down,
    Motion,
    Up,
}

/// A raw input occurrence.
#[derive(Clone, Copy, Debug, PartialEq, Eq, Structural)]
pub enum DeviceEvent {
    /// A finger touched, moved on or left the screen. Fingers that touch the
    /// screen at the same time carry different, increasing identifiers.
    Finger { id: i32, status: FingerStatus, position: Point },
}

} // verus!
