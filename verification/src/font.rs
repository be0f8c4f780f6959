//! What the text layout reports of the fonts and of the texts it lays out.

use vstd::prelude::*;

verus! {

/// The measures of the font in which controls are labelled, as the text
/// layout reports them.
#[derive(Clone, Copy, Debug, PartialEq, Eq, Structural)]
pub struct Fonts {
    pub x_height: u16,
    pub em: u16,
    /// The width of the widest of the labels that name the sliders.
    pub slider_label_width: u16,
    /// The width of the widest of the labels on the buttons.
    pub button_label_width: u16,
}

/// A run of text laid out by the text layout: its width and the handle by
/// which the drawing surface finds its glyphs.
#[derive(Clone, Copy, Debug, PartialEq, Eq, Structural)]
pub struct RenderPlan {
    pub width: u32,
    pub handle: u64,
}

} // verus!
