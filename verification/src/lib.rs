//! View tree, event routing and refresh requests for a reading-device interface.

pub mod app;
pub mod color;
pub mod device;
pub mod font;
pub mod framebuffer;
pub mod frontlight;
pub mod geom;
pub mod gesture;
pub mod input;
pub mod lightsensor;
pub mod settings;
pub mod unit;
pub mod view;
