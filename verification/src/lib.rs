//! A night scene in pixels: a row of houses whose windows glow and go dark,
//! and snow that falls in front of them, drawn into an RGBA frame buffer.
//!
//! `world` holds the scene and draws its layers; `house`, `window` and
//! `flake` are what it is made of; `color` and `canvas` are the blending and
//! the painting underneath. `pace` decides when the scene ticks and how hard
//! it snows, and `report` words a failure for the log. `chance` and `clock`
//! are the doors to the random number generator and to the clock.

pub mod canvas;
pub mod chance;
pub mod clock;
pub mod color;
pub mod flake;
pub mod house;
pub mod pace;
pub mod report;
pub mod window;
pub mod world;
