//! Sensors of ambient light.

pub mod kobo;
