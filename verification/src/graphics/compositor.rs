//! The compositor: merges per-writer command buffers into the shadow
//! framebuffer, tracking dirty rectangles, and counts completed frames.

use super::buffer::{DrawCommand, WriterBuffer};
use super::draw::{draw_char, draw_rect, draw_string, lemma_rasterize_char_bounds,
    lemma_rasterize_rect_bounds, lemma_rasterize_text_bounds, rasterize_char, rasterize_rect,
    rasterize_text};
use super::font::Font;
use super::region::Region;
use super::shadow_buffer::{covers, ShadowBuffer};
use vstd::prelude::*;

verus! {

/// The compositor's fixed configuration: the hardware framebuffer geometry
/// and the refresh cadence.
#[derive(Debug, Clone, Copy, PartialEq, Eq, Structural)]
pub struct CompositorConfig {
    /// Physical address of the hardware framebuffer.
    pub fb_base: u64,
    pub fb_width: u32,
    pub fb_height: u32,
    /// Ticks between compositor passes.
    pub refresh_interval_ticks: u64,
}

/// The pixels one command leaves in a buffer of stride `width`, drawn
/// relative to `region`. Commands whose coordinates would leave the
/// coordinate space draw nothing.
pub open spec fn render_one(
    p: Seq<u32>,
    width: int,
    region: Region,
    cmd: DrawCommand,
    font: Font,
) -> Seq<u32> {
    match cmd {
        DrawCommand::Clear { color } => rasterize_rect(
            p,
            width,
            region.x as int,
            region.y as int,
            region.width as int,
            region.height as int,
            color,
        ),
        DrawCommand::DrawChar { x, y, ch, color } => {
            if region.x + x + 8 <= u32::MAX && region.y + y + 8 <= u32::MAX {
                rasterize_char(p, font, width, region.x + x, region.y + y, ch, color)
            } else {
                p
            }
        },
        DrawCommand::DrawString { x, y, text, color } => {
            if region.x + x + 8 * text@.len() + 8 <= u32::MAX && region.y + y + 8 <= u32::MAX {
                rasterize_text(p, font, width, region.x + x, region.y + y, text@, color)
            } else {
                p
            }
        },
        DrawCommand::FillRect { x, y, width: w, height: h, color } => {
            if region.x + x + w <= u32::MAX && region.y + y + h <= u32::MAX {
                rasterize_rect(p, width, region.x + x, region.y + y, w as int, h as int, color)
            } else {
                p
            }
        },
    }
}

/// When every changed pixel lies in a box and the dirty rectangle covers
/// that box (clipped to the screen), the dirty rectangle covers every
/// changed pixel: a changed pixel is necessarily on-screen.
proof fn lemma_changed_pixels_covered(
    pre: Seq<u32>,
    post: Seq<u32>,
    shadow: ShadowBuffer,
    bx: int,
    by: int,
    bw: int,
    bh: int,
)
    requires
        shadow.wf(),
        post == shadow.pixels@,
        post.len() == pre.len(),
        forall|i: int|
            0 <= i < pre.len() && post[i] != pre[i] ==> bx <= i % (shadow.width as int) < bx + bw
                && by <= i / (shadow.width as int) < by + bh,
        forall|i: int|
            bx <= i % (shadow.width as int) < bx + bw && by <= i / (shadow.width as int) < by + bh
                && i % (shadow.width as int) < shadow.width && i / (shadow.width as int)
                < shadow.height && i >= 0 ==> #[trigger] covers(
                shadow.dirty_rect,
                shadow.width as int,
                i,
            ),
    ensures
        forall|i: int|
            0 <= i < post.len() && post[i] != pre[i] ==> covers(
                shadow.dirty_rect,
                shadow.width as int,
                i,
            ),
{
    let w = shadow.width as int;
    assert forall|i: int| 0 <= i < post.len() && post[i] != pre[i] implies covers(
        shadow.dirty_rect,
        w,
        i,
    ) by {
        vstd::arithmetic::div_mod::lemma_mod_bound(i, w);
        assert(post.len() == shadow.width * shadow.height);
        vstd::arithmetic::div_mod::lemma_multiply_divide_lt(i, w, shadow.height as int);
        assert(bx <= i % w < bx + bw && by <= i / w < by + bh);
        assert(i % w < shadow.width && i / w < shadow.height && i >= 0);
    }
}

/// The pixels a command list leaves, applied in order.
pub open spec fn render_all(
    p: Seq<u32>,
    width: int,
    region: Region,
    cmds: Seq<DrawCommand>,
    font: Font,
) -> Seq<u32>
    decreases cmds.len(),
{
    if cmds.len() == 0 {
        p
    } else {
        render_all(render_one(p, width, region, cmds[0], font), width, region, cmds.skip(1), font)
    }
}

/// Replay a command list into the shadow buffer: the pixels afterwards are
/// exactly the reference rendering of the list, and everything the commands
/// may have touched is marked dirty.
pub fn render_commands_to(
    shadow: &mut ShadowBuffer,
    region: &Region,
    commands: &Vec<DrawCommand>,
    font: &Font,
) -> (nothing: ())
    requires
        old(shadow).wf(),
        region.wf(),
        font.wf(),
    ensures
        final (shadow).wf(),
        final (shadow).width == old(shadow).width,
        final (shadow).height == old(shadow).height,
        final (shadow).pixels@ == render_all(
            old(shadow).pixels@,
            old(shadow).width as int,
            *region,
            commands@,
            *font,
        ),
        forall|i: int|
            covers(old(shadow).dirty_rect, old(shadow).width as int, i) ==> covers(
                final (shadow).dirty_rect,
                final (shadow).width as int,
                i,
            ),
        forall|i: int|
            0 <= i < final (shadow).pixels@.len() && final (shadow).pixels@[i] != old(
                shadow,
            ).pixels@[i] ==> covers(final (shadow).dirty_rect, final (shadow).width as int, i),
{
    let ghost p0 = shadow.pixels@;
    let ghost d0 = shadow.dirty_rect;
    let mut n: usize = 0;
    proof {
        assert(commands@.skip(0) =~= commands@);
    }
    while n < commands.len()
        invariant
            shadow.wf(),
            region.wf(),
            font.wf(),
            shadow.width == old(shadow).width,
            shadow.height == old(shadow).height,
            p0 == old(shadow).pixels@,
            d0 == old(shadow).dirty_rect,
            n <= commands@.len(),
            render_all(p0, shadow.width as int, *region, commands@, *font) == render_all(
                shadow.pixels@,
                shadow.width as int,
                *region,
                commands@.skip(n as int),
                *font,
            ),
            forall|i: int|
                covers(d0, shadow.width as int, i) ==> covers(
                    shadow.dirty_rect,
                    shadow.width as int,
                    i,
                ),
            forall|i: int|
                0 <= i < shadow.pixels@.len() && shadow.pixels@[i] != p0[i] ==> covers(
                    shadow.dirty_rect,
                    shadow.width as int,
                    i,
                ),
        decreases commands@.len() - n,
    {
        let ghost dbefore = shadow.dirty_rect;
        let ghost before = shadow.pixels@;
        let cmd = &commands[n];
        match cmd {
            DrawCommand::Clear { color } => {
                let mut pixels: Vec<u32> = Vec::new();
                core::mem::swap(&mut pixels, &mut shadow.pixels);
                draw_rect(
                    &mut pixels,
                    shadow.width,
                    region.x,
                    region.y,
                    region.width,
                    region.height,
                    *color,
                );
                shadow.pixels = pixels;
                let r = *region;
                shadow.mark_dirty(&r);
                proof {
                    lemma_rasterize_rect_bounds(
                        before,
                        shadow.width as int,
                        region.x as int,
                        region.y as int,
                        region.width as int,
                        region.height as int,
                        *color,
                    );
                    lemma_changed_pixels_covered(
                        before,
                        shadow.pixels@,
                        *shadow,
                        region.x as int,
                        region.y as int,
                        region.width as int,
                        region.height as int,
                    );
                }
            },
            DrawCommand::DrawChar { x, y, ch, color } => {
                if (region.x as u64) + (*x as u64) + 8 <= u32::MAX as u64 && (region.y as u64) + (
                *y as u64) + 8 <= u32::MAX as u64 {
                    let gx = region.x + *x;
                    let gy = region.y + *y;
                    let mut pixels: Vec<u32> = Vec::new();
                core::mem::swap(&mut pixels, &mut shadow.pixels);
                    draw_char(&mut pixels, shadow.width, gx, gy, *ch, *color, font);
                    shadow.pixels = pixels;
                    shadow.mark_dirty(&Region::new(gx, gy, 8, 8));
                    proof {
                        lemma_rasterize_char_bounds(
                            before,
                            *font,
                            shadow.width as int,
                            gx as int,
                            gy as int,
                            *ch,
                            *color,
                        );
                        lemma_changed_pixels_covered(
                            before,
                            shadow.pixels@,
                            *shadow,
                            gx as int,
                            gy as int,
                            8,
                            8,
                        );
                    }
                }
            },
            DrawCommand::DrawString { x, y, text, color } => {
                if text.len() < 0x2000_0000 && (region.x as u64) + (*x as u64) + 8 * (
                text.len() as u64) + 8 <= u32::MAX as u64 && (region.y as u64) + (*y as u64) + 8
                    <= u32::MAX as u64 {
                    let gx = region.x + *x;
                    let gy = region.y + *y;
                    let mut pixels: Vec<u32> = Vec::new();
                core::mem::swap(&mut pixels, &mut shadow.pixels);
                    draw_string(&mut pixels, shadow.width, gx, gy, text, *color, font);
                    shadow.pixels = pixels;
                    let text_width = 8 * (text.len() as u64);
                    let tw32 = text_width as u32;
                    shadow.mark_dirty(&Region::new(gx, gy, tw32, 8));
                    proof {
                        lemma_rasterize_text_bounds(
                            before,
                            *font,
                            shadow.width as int,
                            gx as int,
                            gy as int,
                            text@,
                            *color,
                        );
                        lemma_changed_pixels_covered(
                            before,
                            shadow.pixels@,
                            *shadow,
                            gx as int,
                            gy as int,
                            8 * text@.len() as int,
                            8,
                        );
                    }
                }
            },
            DrawCommand::FillRect { x, y, width: w, height: h, color } => {
                if (region.x as u64) + (*x as u64) + (*w as u64) <= u32::MAX as u64 && (
                region.y as u64) + (*y as u64) + (*h as u64) <= u32::MAX as u64 {
                    let gx = region.x + *x;
                    let gy = region.y + *y;
                    let mut pixels: Vec<u32> = Vec::new();
                core::mem::swap(&mut pixels, &mut shadow.pixels);
                    draw_rect(&mut pixels, shadow.width, gx, gy, *w, *h, *color);
                    shadow.pixels = pixels;
                    shadow.mark_dirty(&Region::new(gx, gy, *w, *h));
                    proof {
                        lemma_rasterize_rect_bounds(
                            before,
                            shadow.width as int,
                            gx as int,
                            gy as int,
                            *w as int,
                            *h as int,
                            *color,
                        );
                        lemma_changed_pixels_covered(
                            before,
                            shadow.pixels@,
                            *shadow,
                            gx as int,
                            gy as int,
                            *w as int,
                            *h as int,
                        );
                    }
                }
            },
        }
        proof {
            assert(shadow.pixels@ == render_one(
                before,
                shadow.width as int,
                *region,
                commands@[n as int],
                *font,
            ));
            assert(commands@.skip(n as int)[0] == commands@[n as int]);
            assert(commands@.skip(n as int).skip(1) =~= commands@.skip(n as int + 1));
        }
        n = n + 1;
    }
    proof {
        assert(commands@.skip(commands@.len() as int) =~= Seq::<DrawCommand>::empty());
    }
}

/// The pixels one compositor pass leaves: each buffer's commands rendered in
/// registration order, dirty buffers only.
pub open spec fn composite_all(
    p: Seq<u32>,
    width: int,
    buffers: Seq<WriterBuffer>,
    font: Font,
) -> Seq<u32>
    decreases buffers.len(),
{
    if buffers.len() == 0 {
        p
    } else {
        let next = if buffers[0].dirty {
            render_all(p, width, buffers[0].region, buffers[0].commands@, font)
        } else {
            p
        };
        composite_all(next, width, buffers.skip(1), font)
    }
}

/// The compositor: the registered writer buffers (owned), the configuration,
/// and the frame counter.
pub struct Compositor {
    pub config: CompositorConfig,
    pub buffers: Vec<WriterBuffer>,
    pub frames: u64,
}

impl Compositor {
    /// A compositor for the given configuration with no writers yet.
    pub fn new(config: CompositorConfig) -> (r: Self)
        ensures
            r.config == config,
            r.buffers@.len() == 0,
            r.frames == 0,
    {
        Self { config, buffers: Vec::new(), frames: 0 }
    }

    /// Register one more writer drawing into `region`; its buffer is reached
    /// through the returned handle. The region must fit the coordinate
    /// space, so every later pass can composite it.
    pub fn register_writer(&mut self, region: Region) -> (handle: usize)
        requires
            region.wf(),
        ensures
            handle == old(self).buffers@.len(),
            final (self).buffers@.len() == old(self).buffers@.len() + 1,
            final (self).buffers@[handle as int].region == region,
            final (self).buffers@[handle as int].commands@.len() == 0,
            !final (self).buffers@[handle as int].dirty,
            forall|i: int|
                0 <= i < old(self).buffers@.len() ==> final (self).buffers@[i] == old(
                    self,
                ).buffers@[i],
            final (self).config == old(self).config,
            final (self).frames == old(self).frames,
    {
        let handle = self.buffers.len();
        self.buffers.push(WriterBuffer::new(region));
        handle
    }

    /// How many writers are registered.
    pub fn writer_count(&self) -> (r: usize)
        ensures
            r == self.buffers@.len(),
    {
        self.buffers.len()
    }

    /// Queue a batch of commands on the writer behind `handle`.
    pub fn append_commands(&mut self, handle: usize, commands: Vec<DrawCommand>)
        requires
            handle < old(self).buffers@.len(),
        ensures
            final (self).buffers@.len() == old(self).buffers@.len(),
            final (self).buffers@[handle as int].commands@ == old(
                self,
            ).buffers@[handle as int].commands@ + commands@,
            final (self).buffers@[handle as int].region == old(self).buffers@[handle as int].region,
            forall|i: int|
                0 <= i < old(self).buffers@.len() && i != handle ==> final (self).buffers@[i]
                    == old(self).buffers@[i],
            final (self).config == old(self).config,
            final (self).frames == old(self).frames,
    {
        let mut buf = self.buffers.remove(handle);
        buf.extend_commands(commands);
        self.buffers.insert(handle, buf);
        proof {
            assert(self.buffers@ =~= old(self).buffers@.update(handle as int, buf));
        }
    }

    /// One compositor pass: replay every dirty writer's commands into the
    /// shadow buffer (in registration order) and clear them; count a frame.
    pub fn composite_pass(&mut self, shadow: &mut ShadowBuffer, font: &Font)
        requires
            old(self).frames < u64::MAX,
            old(shadow).wf(),
            font.wf(),
            forall|i: int| 0 <= i < old(self).buffers@.len() ==> (#[trigger] old(self).buffers@[i]).region.wf(),
        ensures
            final (self).frames == old(self).frames + 1,
            final (self).config == old(self).config,
            final (self).buffers@.len() == old(self).buffers@.len(),
            final (shadow).wf(),
            final (shadow).width == old(shadow).width,
            final (shadow).height == old(shadow).height,
            forall|i: int|
                0 <= i < final (self).buffers@.len() ==> !(#[trigger] final (self).buffers@[i]).dirty
                    && final (self).buffers@[i].region == old(self).buffers@[i].region,
            final (shadow).pixels@ == composite_all(
                old(shadow).pixels@,
                old(shadow).width as int,
                old(self).buffers@,
                *font,
            ),
            forall|i: int|
                covers(old(shadow).dirty_rect, old(shadow).width as int, i) ==> covers(
                    final (shadow).dirty_rect,
                    final (shadow).width as int,
                    i,
                ),
            forall|i: int|
                0 <= i < final (shadow).pixels@.len() && final (shadow).pixels@[i] != old(
                    shadow,
                ).pixels@[i] ==> covers(final (shadow).dirty_rect, final (shadow).width as int, i),
    {
        let ghost p0 = shadow.pixels@;
        let ghost b0 = self.buffers@;
        let ghost d0 = shadow.dirty_rect;
        proof {
            assert(b0.skip(0) =~= b0);
        }
        let mut i: usize = 0;
        while i < self.buffers.len()
            invariant
                shadow.wf(),
                font.wf(),
                shadow.width == old(shadow).width,
                shadow.height == old(shadow).height,
                i <= self.buffers@.len(),
                self.buffers@.len() == old(self).buffers@.len(),
                self.config == old(self).config,
                self.frames == old(self).frames,
                forall|j: int|
                    0 <= j < self.buffers@.len() ==> (#[trigger] self.buffers@[j]).region == old(
                        self,
                    ).buffers@[j].region && self.buffers@[j].region.wf(),
                forall|j: int| 0 <= j < i ==> !(#[trigger] self.buffers@[j]).dirty,
                p0 == old(shadow).pixels@,
                b0 == old(self).buffers@,
                d0 == old(shadow).dirty_rect,
                forall|j: int| i <= j < b0.len() ==> self.buffers@[j] == b0[j],
                composite_all(p0, shadow.width as int, b0, *font) == composite_all(
                    shadow.pixels@,
                    shadow.width as int,
                    b0.skip(i as int),
                    *font,
                ),
                forall|k: int|
                    covers(d0, shadow.width as int, k) ==> covers(
                        shadow.dirty_rect,
                        shadow.width as int,
                        k,
                    ),
                forall|k: int|
                    0 <= k < shadow.pixels@.len() && shadow.pixels@[k] != p0[k] ==> covers(
                        shadow.dirty_rect,
                        shadow.width as int,
                        k,
                    ),
            decreases self.buffers@.len() - i,
        {
            let ghost before = shadow.pixels@;
            let dirty = self.buffers[i].is_dirty();
            if dirty {
                let mut buf = self.buffers.remove(i);
                let region = buf.region();
                render_commands_to(shadow, &region, &buf.commands, font);
                buf.clear_commands();
                self.buffers.insert(i, buf);
            } else {
                let mut buf = self.buffers.remove(i);
                buf.clear_commands();
                self.buffers.insert(i, buf);
            }
            proof {
                assert(self.buffers@[i as int].dirty == false);
                assert(b0.skip(i as int)[0] == b0[i as int]);
                assert(b0.skip(i as int).skip(1) =~= b0.skip(i as int + 1));
                if b0[i as int].dirty {
                    assert(shadow.pixels@ == render_all(
                        before,
                        shadow.width as int,
                        b0[i as int].region,
                        b0[i as int].commands@,
                        *font,
                    ));
                } else {
                    assert(shadow.pixels@ == before);
                }
            }
            i = i + 1;
        }
        proof {
            assert(b0.skip(b0.len() as int) =~= Seq::<WriterBuffer>::empty());
        }
        self.frames = self.frames + 1;
    }

    /// Frames composited so far.
    pub fn frame_count(&self) -> (r: u64)
        ensures
            r == self.frames,
    {
        self.frames
    }

    /// The screen size as (width, height).
    pub fn screen_size(&self) -> (r: (u32, u32))
        ensures
            r.0 == self.config.fb_width,
            r.1 == self.config.fb_height,
    {
        (self.config.fb_width, self.config.fb_height)
    }

    /// The configuration the compositor was initialised with.
    pub fn get_config(&self) -> (r: &CompositorConfig)
        ensures
            r == self.config,
    {
        &self.config
    }
}

/// Set up the compositor for the given configuration.
pub fn init_compositor(config: CompositorConfig) -> (r: Compositor)
    ensures
        r.config == config,
        r.buffers@.len() == 0,
        r.frames == 0,
{
    Compositor::new(config)
}

} // verus!
