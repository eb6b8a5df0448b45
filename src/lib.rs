//! Simulation core of a top-down arcade game: an entity store, the movement
//! system for the input-driven vehicle, the asteroid systems and the
//! starting scene. Lengths, speeds and angles are fixed-point thousandths.
use vstd::prelude::*;

pub mod fixed;
pub mod vector;
pub mod components;
pub mod keys;
pub mod world;
pub mod game;
pub mod asteroid;

verus! {

/// Width of the window in pixels; one pixel is one world unit.
pub const SCREEN_WIDTH: u32 = 800;

/// Height of the window in pixels.
pub const SCREEN_HEIGHT: u32 = 800;

} // verus!
