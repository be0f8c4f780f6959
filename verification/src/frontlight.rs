//! The frontlight, as the interface sees it: the levels last asked of it.

use vstd::prelude::*;

verus! {

/// The two settings of the frontlight, each a percentage.
#[derive(Clone, Copy, Debug, PartialEq, Eq, Structural)]
pub struct LightLevels {
    pub intensity: u8,
    pub warmth: u8,
}

/// `value` as a percentage: what exceeds a hundred counts as a hundred.
pub open spec fn percent(value: u8) -> u8 {
    if value > 100 {
        100
    } else {
        value
    }
}

/// The frontlight. Setting a level neither waits for the light nor reports
/// back; the driver of the light follows the levels kept here.
#[derive(Clone, Copy, Debug, PartialEq, Eq, Structural)]
pub struct Frontlight {
    pub levels: LightLevels,
}

impl View for Frontlight {
    type V = LightLevels;

    open spec fn view(&self) -> LightLevels {
        self.levels
    }
}

impl Frontlight {
    /// The levels last asked of the frontlight.
    pub fn levels(&self) -> (levels: LightLevels)
        ensures
            levels == self@,
    {
        self.levels
    }

    /// Asks the frontlight for the intensity `value`, a percentage.
    pub fn set_intensity(&mut self, value: u8)
        ensures
            final(self)@ == (LightLevels { intensity: percent(value), ..old(self)@ }),
    {
        self.levels.intensity = if value > 100 {
            100
        } else {
            value
        };
    }

    /// Asks the frontlight for the warmth `value`, a percentage.
    pub fn set_warmth(&mut self, value: u8)
        ensures
            final(self)@ == (LightLevels { warmth: percent(value), ..old(self)@ }),
    {
        self.levels.warmth = if value > 100 {
            100
        } else {
            value
        };
    }
}

} // verus!
