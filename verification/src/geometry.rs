//! Where a picture is: a display as the system reports it, the mapping from the
//! pixels of a surface to logical points, and rectangles of pixels. Lengths are in
//! millionths of a point or of a pixel.

use vstd::prelude::*;

verus! {

/// What the system says about a display.
#[derive(Clone, Copy, Debug, PartialEq, Eq, Structural)]
pub struct MonitorFacts {
    pub x: i32,
    pub y: i32,
    pub width: u32,
    pub height: u32,
    /// Pixels per point of the display mode, in millionths.
    pub scale_factor: i64,
}

/// The mapping a picture was taken with: its size in pixels, and the place and size
/// of what it shows in logical points.
#[derive(Clone, Copy, Debug, PartialEq, Eq, Structural)]
pub struct Geometry {
    pub phys_w: u32,
    pub phys_h: u32,
    pub logical_w: i64,
    pub logical_h: i64,
    pub origin_x: i64,
    pub origin_y: i64,
    pub scale_factor: i64,
}

/// A rectangle of a full picture, in millionths of a pixel.
#[derive(Clone, Copy, Debug, PartialEq, Eq, Structural)]
pub struct Region {
    pub x: i64,
    pub y: i64,
    pub w: i64,
    pub h: i64,
}

/// A rectangle of the pixels a surface really has, in millionths of one.
#[derive(Clone, Copy, Debug, PartialEq, Eq, Structural)]
pub struct CropRect {
    pub left_phys: i64,
    pub top_phys: i64,
    pub w_phys: i64,
    pub h_phys: i64,
}

} // verus!
