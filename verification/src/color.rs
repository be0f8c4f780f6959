//! Grey levels and the colour schemes of text.

use vstd::prelude::*;

verus! {

pub const BLACK: u8 = 0x00;

pub const WHITE: u8 = 0xFF;

/// A background and the foreground that is drawn on it.
#[derive(Clone, Copy, Debug, PartialEq, Eq, Structural)]
pub struct Scheme {
    pub background: u8,
    pub foreground: u8,
}

impl Scheme {
    /// Dark text on a light ground.
    pub open spec fn normal() -> Scheme {
        Scheme { background: WHITE, foreground: BLACK }
    }

    /// Light text on a dark ground.
    pub open spec fn inverted_hard() -> Scheme {
        Scheme { background: BLACK, foreground: WHITE }
    }
}

/// The scheme of ordinary text.
pub fn text_normal() -> (s: Scheme)
    ensures
        s == Scheme::normal(),
{
    Scheme { background: WHITE, foreground: BLACK }
}

/// The scheme of text on a pressed control.
pub fn text_inverted_hard() -> (s: Scheme)
    ensures
        s == Scheme::inverted_hard(),
{
    Scheme { background: BLACK, foreground: WHITE }
}

} // verus!
