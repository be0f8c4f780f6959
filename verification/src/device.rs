//! What the device is and can do.

use vstd::prelude::*;

verus! {

/// What the device is and can do. Fixed when the process starts.
#[derive(Clone, Copy, Debug, PartialEq, Eq, Structural)]
pub struct Device {
    /// The width of the screen, in pixels.
    pub width: u16,
    /// The height of the screen, in pixels.
    pub height: u16,
    pub dpi: u16,
    /// The height of a row of controls on this screen.
    pub small_height: u16,
    pub natural_light: bool,
    pub lightsensor: bool,
}

impl Device {
    /// Tells whether the warmth of the frontlight can be set.
    pub fn has_natural_light(&self) -> (b: bool)
        ensures
            b == self.natural_light,
    {
        self.natural_light
    }

    /// Tells whether the device measures the ambient light.
    pub fn has_lightsensor(&self) -> (b: bool)
        ensures
            b == self.lightsensor,
    {
        self.lightsensor
    }
}

} // verus!
