//! Gestures derived from raw touches, each with the geometry that made it.

use vstd::prelude::*;
use crate::geom::Point;

verus! {

#[derive(Clone, Copy, Debug, PartialEq, Eq, Structural)]
pub enum GestureEvent {
    /// A short touch at a point.
    Tap(Point),
    /// A finger held still at a point.
    HoldFinger(Point),
    /// A finger dragged from `start` to `end`.
    Swipe { start: Point, end: Point },
}

impl GestureEvent {
    /// The point at which the gesture began.
    pub open spec fn origin(self) -> Point {
        match self {
            GestureEvent::Tap(center) => center,
            GestureEvent::HoldFinger(center) => center,
            GestureEvent::Swipe { start, .. } => start,
        }
    }
}

} // verus!
