//! The rules of a small space flight simulator that do not depend on floating-point physics:
//! the time warp ladder and its ceilings, camera view modes and focus cycling, the vessel's
//! discrete controls, and the decisions and text behind the HUD readouts.

pub mod camera;
pub mod hud;
pub mod readout;
pub mod timewarp;
pub mod util;
pub mod vessel;
