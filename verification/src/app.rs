//! What a node may read and change beside itself while it handles an event.

use vstd::prelude::*;
use crate::device::Device;
use crate::font::Fonts;
use crate::frontlight::{percent, Frontlight, LightLevels};
use crate::settings::{Settings, SettingsView};

verus! {

#[derive(Clone, Debug, PartialEq, Eq)]
pub struct Context {
    pub device: Device,
    pub fonts: Fonts,
    pub settings: Settings,
    pub frontlight: Frontlight,
    /// The latest reading of the light sensor; `None` when the sensor is
    /// absent or could not be read.
    pub lightsensor: Option<u16>,
    /// The time, in seconds, at which the event under dispatch arrived.
    pub now: u64,
    pub inverted: bool,
    pub monochrome: bool,
    /// Whether the interface runs without the vendor's own beside it.
    pub standalone: bool,
}

pub ghost struct ContextView {
    pub device: Device,
    pub fonts: Fonts,
    pub settings: SettingsView,
    /// The levels last asked of the frontlight.
    pub frontlight: LightLevels,
    pub lightsensor: Option<u16>,
    pub now: u64,
    pub inverted: bool,
    pub monochrome: bool,
    pub standalone: bool,
}

impl ContextView {
    /// The context after the intensity of the frontlight was set.
    pub open spec fn with_intensity(self, value: u8) -> ContextView {
        ContextView {
            frontlight: LightLevels { intensity: percent(value), ..self.frontlight },
            ..self
        }
    }

    /// The context after the warmth of the frontlight was set.
    pub open spec fn with_warmth(self, value: u8) -> ContextView {
        ContextView { frontlight: LightLevels { warmth: percent(value), ..self.frontlight }, ..self }
    }
}

impl View for Context {
    type V = ContextView;

    open spec fn view(&self) -> ContextView {
        ContextView {
            device: self.device,
            fonts: self.fonts,
            settings: self.settings@,
            frontlight: self.frontlight@,
            lightsensor: self.lightsensor,
            now: self.now,
            inverted: self.inverted,
            monochrome: self.monochrome,
            standalone: self.standalone,
        }
    }
}

} // verus!
