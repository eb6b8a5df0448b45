//! The component records that entities carry.
use vstd::prelude::*;
use crate::vector::Vec2;

verus! {

/// Where an entity stands: coordinates in thousandths of a world unit,
/// heading in thousandths of a degree.
#[derive(Clone, Copy, Debug, PartialEq, Eq, Structural)]
pub struct Position {
    pub x: i64,
    pub y: i64,
    pub rot: i64,
}

/// How an entity is drawn: a texture by name, the size of its source region,
/// the size it is drawn at, its animation frame, and the angle it is drawn at
/// (thousandths of a degree).
#[derive(Clone, Debug)]
pub struct Renderable {
    pub tex_name: String,
    pub i_w: u32,
    pub i_h: u32,
    pub o_w: u32,
    pub o_h: u32,
    pub frame: u32,
    pub total_frames: u32,
    pub rot: i64,
}

/// The input-driven vehicle: the push gathered for the coming tick and the
/// current velocity.
#[derive(Clone, Copy, Debug, PartialEq, Eq, Structural)]
pub struct Player {
    pub impulse: Vec2,
    pub cur_speed: Vec2,
}

/// A drifting obstacle: distance per tick along x and turn per tick, in
/// thousandths of a unit and of a degree.
#[derive(Clone, Copy, Debug, PartialEq, Eq, Structural)]
pub struct Asteroid {
    pub speed: i64,
    pub rot_speed: i64,
}

/// Any one component, as handed to the entity store.
#[derive(Clone, Debug)]
pub enum Component {
    Position(Position),
    Renderable(Renderable),
    Player(Player),
    Asteroid(Asteroid),
}

} // verus!
