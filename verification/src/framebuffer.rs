//! Refresh classes of the display, and the drawing surface as a list of
//! paint operations that the display driver replays.

use vstd::prelude::*;
use crate::geom::{BorderSpec, CornerSpec, Point, Rectangle};

verus! {

/// The classes of update that the display can perform on a region.
#[derive(Clone, Copy, Debug, PartialEq, Eq, Structural)]
pub enum UpdateMode {
    /// A complete repaint of the region: slow, and leaves no ghosting.
    Full,
    /// The high-fidelity class, for text, borders and whatever the user
    /// manipulated directly.
    Gui,
    /// The low-fidelity class, for feedback that has to appear at once.
    Fast,
}

/// Why a region of the screen is to be refreshed.
#[derive(Clone, Copy, Debug, PartialEq, Eq, Structural)]
pub enum Reason {
    /// What the region shows has changed, and must be crisp.
    Content,
    /// The region answers a touch, and must do so at once.
    Feedback,
    /// What the region showed was removed.
    Removal,
    /// The region is to be painted from scratch.
    Redraw,
}

/// One paint operation on the drawing surface.
#[derive(Clone, Copy, Debug, PartialEq, Eq, Structural)]
pub enum Paint {
    /// Fill a rectangle with one colour.
    Rectangle { rect: Rectangle, color: u8 },
    /// Fill a rectangle whose corners are rounded.
    RoundedRectangle { rect: Rectangle, corners: CornerSpec, color: u8 },
    /// Fill a rounded rectangle and draw a border inside its edge.
    BorderedRectangle { rect: Rectangle, corners: CornerSpec, border: BorderSpec, color: u8 },
    /// Blit a shaped run of glyphs with its baseline starting at `origin`.
    Text { handle: u64, origin: Point, color: u8 },
    /// Commit a region to the screen in a class of update.
    Update { rect: Rectangle, mode: UpdateMode },
}

/// An in-memory drawing surface. It keeps the paint operations in the order
/// in which they were made.
#[derive(Clone, Debug, PartialEq, Eq)]
pub struct Framebuffer {
    pub paints: Vec<Paint>,
}

impl View for Framebuffer {
    type V = Seq<Paint>;

    open spec fn view(&self) -> Seq<Paint> {
        self.paints@
    }
}

impl Framebuffer {
    /// A surface on which nothing has been painted.
    pub fn new() -> (fb: Framebuffer)
        ensures
            fb@ == Seq::<Paint>::empty(),
    {
        Framebuffer { paints: Vec::new() }
    }

    pub fn draw_rectangle(&mut self, rect: &Rectangle, color: u8)
        ensures
            final(self)@ == old(self)@.push(Paint::Rectangle { rect: *rect, color }),
    {
        self.paints.push(Paint::Rectangle { rect: *rect, color });
    }

    pub fn draw_rounded_rectangle(&mut self, rect: &Rectangle, corners: &CornerSpec, color: u8)
        ensures
            final(self)@ == old(self)@.push(
                Paint::RoundedRectangle { rect: *rect, corners: *corners, color },
            ),
    {
        self.paints.push(Paint::RoundedRectangle { rect: *rect, corners: *corners, color });
    }

    pub fn draw_rounded_rectangle_with_border(
        &mut self,
        rect: &Rectangle,
        corners: &CornerSpec,
        border: &BorderSpec,
        color: u8,
    )
        ensures
            final(self)@ == old(self)@.push(
                Paint::BorderedRectangle { rect: *rect, corners: *corners, border: *border, color },
            ),
    {
        self.paints.push(
            Paint::BorderedRectangle { rect: *rect, corners: *corners, border: *border, color },
        );
    }

    /// Commits `rect` to the screen in the class `mode`. Commits reach the
    /// screen in the order in which they are made.
    pub fn update(&mut self, rect: &Rectangle, mode: UpdateMode)
        ensures
            final(self)@ == old(self)@.push(Paint::Update { rect: *rect, mode }),
    {
        self.paints.push(Paint::Update { rect: *rect, mode });
    }

    pub fn draw_text(&mut self, handle: u64, origin: &Point, color: u8)
        ensures
            final(self)@ == old(self)@.push(Paint::Text { handle, origin: *origin, color }),
    {
        self.paints.push(Paint::Text { handle, origin: *origin, color });
    }
}

} // verus!
