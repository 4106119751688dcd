//! Rectangular pixel regions in screen coordinates.

use vstd::prelude::*;

verus! {

/// A rectangle of pixels: top-left corner, width and height.
#[derive(Debug, Clone, Copy, PartialEq, Eq, Structural)]
pub struct Region {
    pub x: u32,
    pub y: u32,
    pub width: u32,
    pub height: u32,
}

impl Region {
    /// A region never extends past the coordinate space.
    pub open spec fn wf(self) -> bool {
        self.x + self.width <= u32::MAX && self.y + self.height <= u32::MAX
    }

    /// The region with the given corner and size.
    pub fn new(x: u32, y: u32, width: u32, height: u32) -> (r: Self)
        ensures
            r == (Region { x, y, width, height }),
    {
        Self { x, y, width, height }
    }

    /// Whether the point lies inside the region.
    pub fn contains(&self, px: u32, py: u32) -> (r: bool)
        requires
            self.wf(),
        ensures
            r == (self.x <= px < self.x + self.width && self.y <= py < self.y + self.height),
    {
        px >= self.x && px < self.x + self.width && py >= self.y && py < self.y + self.height
    }

    /// One past the rightmost column.
    pub fn right(&self) -> (r: u32)
        requires
            self.wf(),
        ensures
            r == self.x + self.width,
    {
        self.x + self.width
    }

    /// One past the bottom row.
    pub fn bottom(&self) -> (r: u32)
        requires
            self.wf(),
        ensures
            r == self.y + self.height,
    {
        self.y + self.height
    }
}

} // verus!
