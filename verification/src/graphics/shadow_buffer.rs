//! The shadow framebuffer: an off-screen pixel array with one bounding-box
//! dirty rectangle, blitted row by row to the hardware framebuffer.

use super::region::Region;
use vstd::prelude::*;

verus! {

/// `region` clipped to a screen of the given size, `None` when nothing of
/// it is visible.
pub open spec fn clip_region(region: Region, width: u32, height: u32) -> Option<Region> {
    let x = if region.x < width {
        region.x
    } else {
        width
    };
    let y = if region.y < height {
        region.y
    } else {
        height
    };
    let right = if region.x + region.width < width {
        (region.x + region.width) as u32
    } else {
        width
    };
    let bottom = if region.y + region.height < height {
        (region.y + region.height) as u32
    } else {
        height
    };
    if right <= x || bottom <= y {
        None
    } else {
        Some(Region { x, y, width: (right - x) as u32, height: (bottom - y) as u32 })
    }
}

/// Whether the dirty rectangle covers the pixel with linear index `i` in a
/// buffer of the given stride.
pub open spec fn covers(d: Option<Region>, width: int, i: int) -> bool {
    match d {
        Some(r) => r.x <= i % width < r.x + r.width && r.y <= i / width < r.y + r.height,
        None => false,
    }
}

/// The bounding box of two regions.
pub open spec fn bounding_box(a: Region, b: Region) -> Region {
    let min_x = if a.x < b.x {
        a.x
    } else {
        b.x
    };
    let min_y = if a.y < b.y {
        a.y
    } else {
        b.y
    };
    let max_x = if a.x + a.width > b.x + b.width {
        (a.x + a.width) as u32
    } else {
        (b.x + b.width) as u32
    };
    let max_y = if a.y + a.height > b.y + b.height {
        (a.y + a.height) as u32
    } else {
        (b.y + b.height) as u32
    };
    Region { x: min_x, y: min_y, width: (max_x - min_x) as u32, height: (max_y - min_y) as u32 }
}

/// A full-screen off-screen pixel buffer (packed 32-bit colour, row-major)
/// plus the bounding box of everything changed since the last blit.
pub struct ShadowBuffer {
    pub pixels: Vec<u32>,
    pub width: u32,
    pub height: u32,
    pub dirty_rect: Option<Region>,
}

impl ShadowBuffer {
    /// The buffer holds exactly width x height pixels and any dirty
    /// rectangle lies within the screen.
    pub open spec fn wf(self) -> bool {
        &&& self.pixels@.len() == self.width * self.height
        &&& self.width >= 1
        &&& match self.dirty_rect {
            Some(d) => d.x + d.width <= self.width && d.y + d.height <= self.height,
            None => true,
        }
    }

    /// A black buffer of the given size with nothing dirty.
    pub fn new(width: u32, height: u32) -> (r: Self)
        requires
            width >= 1,
            width * height <= usize::MAX,
        ensures
            r.wf(),
            r.width == width,
            r.height == height,
            r.dirty_rect is None,
            forall|i: int| 0 <= i < r.pixels@.len() ==> r.pixels@[i] == 0,
    {
        proof {
            assert(width * height >= 0) by (nonlinear_arith);
        }
        let n: usize = (width as usize) * (height as usize);
        let mut pixels: Vec<u32> = Vec::new();
        let mut i: usize = 0;
        while i < n
            invariant
                i == pixels@.len() <= n,
                forall|j: int| 0 <= j < i ==> pixels@[j] == 0,
            decreases n - i,
        {
            pixels.push(0);
            i = i + 1;
        }
        Self { pixels, width, height, dirty_rect: None }
    }

    /// The screen width in pixels.
    pub fn width(&self) -> (r: u32)
        ensures
            r == self.width,
    {
        self.width
    }

    /// The screen height in pixels.
    pub fn height(&self) -> (r: u32)
        ensures
            r == self.height,
    {
        self.height
    }

    /// The pixel at (x, y).
    pub fn pixel(&self, x: u32, y: u32) -> (r: u32)
        requires
            self.wf(),
            x < self.width,
            y < self.height,
        ensures
            r == self.pixels@[y * self.width + x],
    {
        proof {
            assert(y * self.width + x < self.width * self.height) by (nonlinear_arith)
                requires
                    x < self.width,
                    y < self.height,
            ;
            assert((y as int) * (self.width as int) + x < 0x1_0000_0000_0000_0000)
                by (nonlinear_arith)
                requires
                    y <= 0xFFFF_FFFFu32,
                    self.width <= 0xFFFF_FFFFu32,
                    x <= 0xFFFF_FFFFu32,
            ;
        }
        let idx = (y as u64) * (self.width as u64) + (x as u64);
        let n = self.pixels.len();
        proof {
            assert(idx == y * self.width + x && idx < n);
        }
        self.pixels[idx as usize]
    }

    /// Fill the whole buffer with one colour and mark everything dirty.
    pub fn clear(&mut self, color: u32)
        requires
            old(self).wf(),
        ensures
            final (self).wf(),
            final (self).width == old(self).width,
            final (self).height == old(self).height,
            final (self).pixels@.len() == old(self).pixels@.len(),
            forall|i: int| 0 <= i < final (self).pixels@.len() ==> final (self).pixels@[i] == color,
            final (self).dirty_rect == Some(
                Region { x: 0, y: 0, width: old(self).width, height: old(self).height },
            ),
    {
        let n = self.pixels.len();
        let mut pixels: Vec<u32> = Vec::new();
        let mut i: usize = 0;
        while i < n
            invariant
                i == pixels@.len() <= n,
                forall|j: int| 0 <= j < i ==> pixels@[j] == color,
            decreases n - i,
        {
            pixels.push(color);
            i = i + 1;
        }
        self.pixels = pixels;
        self.mark_all_dirty();
    }

    /// Grow the dirty rectangle to cover `region` (clipped to the screen):
    /// the bounding box of the old dirty rectangle and the clipped region.
    pub fn mark_dirty(&mut self, region: &Region)
        requires
            old(self).wf(),
            region.wf(),
        ensures
            final (self).wf(),
            final (self).pixels == old(self).pixels,
            final (self).width == old(self).width,
            final (self).height == old(self).height,
            final (self).dirty_rect == (match clip_region(
                *region,
                old(self).width,
                old(self).height,
            ) {
                None => old(self).dirty_rect,
                Some(clipped) => match old(self).dirty_rect {
                    None => Some(clipped),
                    Some(existing) => Some(bounding_box(existing, clipped)),
                },
            }),
            forall|i: int|
                covers(old(self).dirty_rect, old(self).width as int, i) ==> covers(
                    final (self).dirty_rect,
                    final (self).width as int,
                    i,
                ),
            forall|i: int|
                region.x <= i % (old(self).width as int) < region.x + region.width && region.y <= i
                    / (old(self).width as int) < region.y + region.height && i % (old(
                    self,
                ).width as int) < old(self).width && i / (old(self).width as int) < old(
                    self,
                ).height && i >= 0 ==> #[trigger] covers(
                    final (self).dirty_rect,
                    final (self).width as int,
                    i,
                ),
    {
        let x = if region.x < self.width {
            region.x
        } else {
            self.width
        };
        let y = if region.y < self.height {
            region.y
        } else {
            self.height
        };
        let right0 = region.x + region.width;
        let right = if right0 < self.width {
            right0
        } else {
            self.width
        };
        let bottom0 = region.y + region.height;
        let bottom = if bottom0 < self.height {
            bottom0
        } else {
            self.height
        };
        if right <= x || bottom <= y {
            return ;
        }
        let clipped = Region::new(x, y, right - x, bottom - y);
        let merged = match &self.dirty_rect {
            Some(existing) => {
                let min_x = if existing.x < clipped.x {
                    existing.x
                } else {
                    clipped.x
                };
                let min_y = if existing.y < clipped.y {
                    existing.y
                } else {
                    clipped.y
                };
                let ex_right = existing.x + existing.width;
                let cl_right = clipped.x + clipped.width;
                let max_x = if ex_right > cl_right {
                    ex_right
                } else {
                    cl_right
                };
                let ex_bottom = existing.y + existing.height;
                let cl_bottom = clipped.y + clipped.height;
                let max_y = if ex_bottom > cl_bottom {
                    ex_bottom
                } else {
                    cl_bottom
                };
                Region::new(min_x, min_y, max_x - min_x, max_y - min_y)
            },
            None => clipped,
        };
        self.dirty_rect = Some(merged);
    }

    /// Take the dirty rectangle, leaving nothing dirty.
    pub fn take_dirty_rect(&mut self) -> (r: Option<Region>)
        requires
            old(self).wf(),
        ensures
            final (self).wf(),
            r == old(self).dirty_rect,
            final (self).dirty_rect is None,
            final (self).pixels == old(self).pixels,
            final (self).width == old(self).width,
            final (self).height == old(self).height,
    {
        self.dirty_rect.take()
    }

    /// Mark the whole screen dirty.
    pub fn mark_all_dirty(&mut self)
        requires
            old(self).wf(),
        ensures
            final (self).wf(),
            final (self).dirty_rect == Some(
                Region { x: 0, y: 0, width: old(self).width, height: old(self).height },
            ),
            final (self).pixels == old(self).pixels,
            final (self).width == old(self).width,
            final (self).height == old(self).height,
    {
        self.dirty_rect = Some(Region::new(0, 0, self.width, self.height));
    }

    /// Copy the dirty rectangle, row by row, into the hardware framebuffer
    /// (given as a pixel array of the same geometry), and clear it. Pixels
    /// outside the dirty rectangle keep their old value; with no dirty
    /// rectangle nothing is copied.
    pub fn blit_to(&mut self, hw: &mut Vec<u32>)
        requires
            old(self).wf(),
            old(hw)@.len() == old(self).pixels@.len(),
        ensures
            final (self).wf(),
            final (self).pixels == old(self).pixels,
            final (self).width == old(self).width,
            final (self).height == old(self).height,
            final (self).dirty_rect is None,
            final (hw)@.len() == old(hw)@.len(),
            old(self).dirty_rect is None ==> final (hw)@ == old(hw)@,
            old(self).dirty_rect matches Some(d) ==> forall|i: int|
                0 <= i < final (hw)@.len() ==> final (hw)@[i] == (
                if d.x <= i % (old(self).width as int) < d.x + d.width && d.y <= i / (old(
                    self,
                ).width as int) < d.y + d.height {
                    old(self).pixels@[i]
                } else {
                    old(hw)@[i]
                }),
    {
        let dirty = match self.take_dirty_rect() {
            Some(r) => r,
            None => {
                return ;
            },
        };
        let ghost d = dirty;
        let ghost hw0 = hw@;
        let width = self.width;
        let mut row: u32 = 0;
        while row < dirty.height
            invariant
                self.wf(),
                *self == old(self).take_dirty(),
                width == self.width,
                d == dirty,
                d.x + d.width <= self.width,
                d.y + d.height <= self.height,
                hw@.len() == hw0.len() == self.pixels@.len(),
                row <= d.height,
                forall|i: int|
                    0 <= i < hw@.len() ==> hw@[i] == (
                    if d.x <= i % (self.width as int) < d.x + d.width && d.y <= i / (
                    self.width as int) < d.y + row {
                        self.pixels@[i]
                    } else {
                        hw0[i]
                    }),
            decreases d.height - row,
        {
            let py = dirty.y + row;
            let mut col: u32 = 0;
            while col < dirty.width
                invariant
                    self.wf(),
                    *self == old(self).take_dirty(),
                    width == self.width,
                    d == dirty,
                    d.x + d.width <= self.width,
                    d.y + d.height <= self.height,
                    hw@.len() == hw0.len() == self.pixels@.len(),
                    row < d.height,
                    py == d.y + row,
                    col <= d.width,
                    forall|i: int|
                        0 <= i < hw@.len() ==> hw@[i] == (
                        if d.x <= i % (self.width as int) < d.x + d.width && (d.y <= i / (
                        self.width as int) < d.y + row || (i / (self.width as int) == py && d.x
                            <= i % (self.width as int) < d.x + col)) {
                            self.pixels@[i]
                        } else {
                            hw0[i]
                        }),
                decreases d.width - col,
            {
                let px = dirty.x + col;
                proof {
                    assert((py as int) * (width as int) + (px as int) < self.width * self.height
                        && py * width + px >= 0) by (nonlinear_arith)
                        requires
                            px < width,
                            py < self.height,
                            width == self.width,
                    ;
                    assert((py as int) * (width as int) + (px as int) < 0x1_0000_0000_0000_0000)
                        by (nonlinear_arith)
                        requires
                            py <= 0xFFFF_FFFFu32,
                            width <= 0xFFFF_FFFFu32,
                            px <= 0xFFFF_FFFFu32,
                    ;
                    super::draw::lemma_pixel_index(width as int, px as int, py as int);
                }
                let idx64 = (py as u64) * (width as u64) + (px as u64);
                let n = self.pixels.len();
                proof {
                    assert(idx64 < n);
                }
                let idx = idx64 as usize;
                let v = self.pixels[idx];
                hw.set(idx, v);
                proof {
                    assert forall|i: int| 0 <= i < hw@.len() implies hw@[i] == (
                    if d.x <= i % (self.width as int) < d.x + d.width && (d.y <= i / (
                    self.width as int) < d.y + row || (i / (self.width as int) == py && d.x <= i
                        % (self.width as int) < d.x + col + 1)) {
                        self.pixels@[i]
                    } else {
                        hw0[i]
                    }) by {
                        if i != idx as int {
                            vstd::arithmetic::div_mod::lemma_fundamental_div_mod(
                                i,
                                self.width as int,
                            );
                            assert((self.width as int) * (py as int) == (py as int) * (
                            self.width as int)) by (nonlinear_arith);
                        } else {
                            assert(i % (self.width as int) == px && i / (self.width as int) == py);
                        }
                    }
                }
                col = col + 1;
            }
            row = row + 1;
        }
        proof {
            assert forall|i: int| 0 <= i < hw@.len() implies hw@[i] == (
            if d.x <= i % (self.width as int) < d.x + d.width && d.y <= i / (self.width as int)
                < d.y + d.height {
                self.pixels@[i]
            } else {
                hw0[i]
            }) by {}
        }
    }

    /// This buffer with the dirty rectangle taken.
    pub open spec fn take_dirty(self) -> ShadowBuffer {
        ShadowBuffer { dirty_rect: None, ..self }
    }
}

} // verus!
