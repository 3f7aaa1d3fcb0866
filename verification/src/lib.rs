//! A verified model of a screen danmaku toy.
//!
//! Floating text "bullets" scroll horizontally across a viewport: each one is
//! spawned from submitted text, animated as a pure function of elapsed time,
//! and dropped once it leaves the visible area. Beside the bullets sits a
//! freehand stroke canvas that records pointer input as polylines.
//!
//! All geometry is kept in plain integer coordinates; the GUI shell that owns
//! the window converts to and from its own units at the boundary.

use vstd::prelude::*;

pub mod bullet;
mod rng;
pub mod state;
pub mod stroke;

verus! {

/// An RGB color with one byte per channel.
#[derive(Clone, Copy, PartialEq, Eq, Structural, Debug)]
pub struct Rgb {
    pub r: u8,
    pub g: u8,
    pub b: u8,
}

/// A viewport size in pixels.
#[derive(Clone, Copy, PartialEq, Eq, Structural, Debug)]
pub struct Size {
    pub width: u32,
    pub height: u32,
}

} // verus!
