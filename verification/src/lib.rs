//! Core logic of a small brick-breaking arcade game: a paddle moved by
//! left/right input, a grid of destructible blocks, and balls that move
//! under reflective physics inside a rectangular playfield.
//!
//! All geometry is carried in integer milliunits (one thousandth of a
//! screen unit), so that every update rule is exact. Time is carried in
//! whole milliseconds. The host (window, input, rendering, clock) lives
//! outside; this crate computes states and draw commands from plain values.

pub mod ball;
pub mod block;
pub mod game;
pub mod geom;
pub mod player;
mod rng;

use vstd::prelude::*;

verus! {

/// Milliunits per screen unit.
pub const MILLI: i64 = 1000;

/// Paddle size: 150 by 40 screen units.
pub const PLAYER_SIZE_X: i64 = 150 * MILLI;
pub const PLAYER_SIZE_Y: i64 = 40 * MILLI;

/// Paddle speed in milliunits per millisecond (700 screen units per second).
pub const PLAYER_SPEED: i64 = 700;

/// Block size: 150 by 40 screen units.
pub const BLOCK_SIZE_X: i64 = 150 * MILLI;
pub const BLOCK_SIZE_Y: i64 = 40 * MILLI;

/// Gap kept between neighbouring blocks of the grid: 10 screen units.
pub const BLOCK_PADDING: i64 = 10 * MILLI;

/// Side of a ball's square collision bound: 50 screen units.
pub const BALL_SIZE: i64 = 50 * MILLI;

/// Ball speed in milliunits per millisecond (400 screen units per second).
pub const BALL_SPEED: i64 = 400;

/// Fixed-point unit for direction vectors: a unit vector has length
/// close to `VEL_SCALE` (see `ball`).
pub const VEL_SCALE: i64 = 100;

/// Milliunits a ball moves per millisecond and per velocity unit; equals
/// `BALL_SPEED` divided by `VEL_SCALE`, which divides evenly.
pub const BALL_STEP: i64 = 4;

/// Largest coordinate magnitude (in milliunits) the update rules accept;
/// far beyond any screen, yet small enough that no frame can overflow.
pub const MAX_COORD: i64 = 1_000_000_000_000;

/// Largest frame delta time accepted, in milliseconds.
pub const MAX_DT: u32 = 1_000_000;

/// A display colour with 8-bit channels, handed through to the renderer.
#[derive(Clone, Copy, PartialEq, Eq, Structural, Debug)]
pub struct Color {
    pub r: u8,
    pub g: u8,
    pub b: u8,
    pub a: u8,
}

impl Color {
    pub fn new(r: u8, g: u8, b: u8, a: u8) -> (c: Color)
        ensures
            c == (Color { r, g, b, a }),
    {
        Color { r, g, b, a }
    }
}

} // verus!
