//! A verified escape-time fractal engine.
//!
//! The engine evaluates complex-valued escape-time functions (the Mandelbrot
//! and Julia families) over a rectangular window of the complex plane, maps
//! the results to colors, and assembles them into an addressable matrix.
//! All plane arithmetic is exact fixed-point arithmetic so that the whole
//! pipeline, from the pixel-to-plane mapping down to the per-channel color
//! clamp, carries machine-checked contracts.

use vstd::prelude::*;

pub mod colorer;
pub mod ematrix;
pub mod fixed;
pub mod frontend;
pub mod loc;
pub mod polycomplex;
pub mod rctx;

pub use colorer::{SineChannel, SineRGB};
pub use polycomplex::{Complex, Escape, Julia, Mandelbrot, PolyComplexFn};

verus! {

/// The bounds for a given image: a width and a height in pixels (or cells).
#[derive(Copy, Clone, Debug, PartialEq, Eq, Structural)]
pub struct Bounds {
    pub height: u16,
    pub width: u16,
}

impl Bounds {
    /// The center pixel of the bounds, rounding down on odd dimensions.
    pub fn center(&self) -> (r: Pos)
        ensures
            r.x == self.width / 2,
            r.y == self.height / 2,
    {
        Pos { x: self.width / 2, y: self.height / 2 }
    }
}

/// A position within some matrix, e.g. an escape matrix or image.
#[derive(Copy, Clone, Debug, PartialEq, Eq, Structural)]
pub struct Pos {
    pub x: u16,
    pub y: u16,
}

impl Pos {
    /// The signed offset that leads from `other` to `self`.
    pub fn sub(self, other: Pos) -> (r: Offset)
        ensures
            r.x == self.x as int - other.x as int,
            r.y == self.y as int - other.y as int,
    {
        Offset { x: self.x as i32 - other.x as i32, y: self.y as i32 - other.y as i32 }
    }

    /// The componentwise sum of two positions, as an offset.
    pub fn add(self, other: Pos) -> (r: Offset)
        ensures
            r.x == self.x as int + other.x as int,
            r.y == self.y as int + other.y as int,
    {
        Offset { x: self.x as i32 + other.x as i32, y: self.y as i32 + other.y as i32 }
    }
}

/// A signed position offset from an origin.
#[derive(Copy, Clone, Debug, PartialEq, Eq, Structural)]
pub struct Offset {
    pub x: i32,
    pub y: i32,
}

impl From<(u16, u16)> for Bounds {
    /// Bounds from a `(width, height)` pair, as a terminal reports its
    /// size.
    fn from(ts: (u16, u16)) -> (r: Bounds) {
        Bounds { width: ts.0, height: ts.1 }
    }
}

impl vstd::std_specs::convert::FromSpecImpl<(u16, u16)> for Bounds {
    open spec fn obeys_from_spec() -> bool {
        true
    }

    open spec fn from_spec(ts: (u16, u16)) -> Bounds {
        Bounds { width: ts.0, height: ts.1 }
    }
}

impl From<(u16, u16)> for Pos {
    /// A position from an `(x, y)` pair.
    fn from(pt: (u16, u16)) -> (r: Pos) {
        Pos { x: pt.0, y: pt.1 }
    }
}

impl vstd::std_specs::convert::FromSpecImpl<(u16, u16)> for Pos {
    open spec fn obeys_from_spec() -> bool {
        true
    }

    open spec fn from_spec(pt: (u16, u16)) -> Pos {
        Pos { x: pt.0, y: pt.1 }
    }
}

} // verus!
