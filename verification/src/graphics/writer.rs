//! Per-task writers: a local command batch that reaches the compositor in
//! one append per flush, with consecutive characters coalesced into single
//! text commands; and a direct framebuffer writer for early boot output.

use super::buffer::{DrawCommand, WriterBuffer};
use super::draw::draw_char;
use super::font::Font;
use super::region::Region;
use vstd::prelude::*;

verus! {

/// Height of one text line in pixels (8-pixel glyphs plus a 2-pixel margin).
pub const LINE_HEIGHT: u32 = 10;

/// The row the cursor moves to on a line feed: one line down, saturating
/// near the top of the coordinate space.
pub open spec fn line_feed(y: u32) -> int {
    if y <= u32::MAX - LINE_HEIGHT - 8 {
        y + LINE_HEIGHT
    } else {
        y as int
    }
}

/// Whether `post` is `pre`'s batch with the pending line committed: grown by
/// exactly one text command carrying the pending characters at the pending
/// position, or unchanged when nothing was pending.
pub open spec fn committed_line(pre: TaskWriter, post: Seq<DrawCommand>) -> bool {
    if pre.pending_text@.len() == 0 {
        post == pre.local_commands@
    } else {
        &&& post.len() == pre.local_commands@.len() + 1
        &&& forall|i: int| 0 <= i < pre.local_commands@.len() ==> post[i] == pre.local_commands@[i]
        &&& post.last() matches DrawCommand::DrawString { x, y, text, color } && x == pre.pending_x
            && y == pre.pending_y && text@ == pre.pending_text@ && color == pre.color
    }
}

/// A task's writer: commands accumulate locally (no lock on the hot path)
/// and move to the shared buffer in one batch on flush. Consecutive
/// characters on one line coalesce into a single text command.
pub struct TaskWriter {
    /// Commands batched since the last flush.
    pub local_commands: Vec<DrawCommand>,
    /// The region this writer draws into (local coordinates).
    pub region: Region,
    pub cursor_x: u32,
    pub cursor_y: u32,
    pub color: u32,
    /// Characters accumulated for the pending text command.
    pub pending_text: Vec<u8>,
    /// Where the pending text begins.
    pub pending_x: u32,
    pub pending_y: u32,
}

impl TaskWriter {
    /// A fresh writer for the region of the given shared buffer; any region
    /// serves.
    pub fn new(buffer: &WriterBuffer, color: u32) -> (r: Self)
        ensures
            r.region == buffer.region,
            r.local_commands@.len() == 0,
            r.pending_text@.len() == 0,
            r.cursor_x == 0 && r.cursor_y == 0,
            r.color == color,
    {
        Self {
            local_commands: Vec::new(),
            region: buffer.region(),
            cursor_x: 0,
            cursor_y: 0,
            color,
            pending_text: Vec::new(),
            pending_x: 0,
            pending_y: 0,
        }
    }

    /// Move the cursor (local coordinates).
    pub fn set_position(&mut self, x: u32, y: u32)
        ensures
            *final (self) == (TaskWriter { cursor_x: x, cursor_y: y, ..*old(self) }),
    {
        self.cursor_x = x;
        self.cursor_y = y;
    }

    /// Change the text colour.
    pub fn set_color(&mut self, color: u32)
        ensures
            *final (self) == (TaskWriter { color, ..*old(self) }),
    {
        self.color = color;
    }

    /// Move the pending characters, if any, into a single text command.
    fn commit_pending_text(&mut self)
        ensures
            final (self).pending_text@.len() == 0,
            old(self).pending_text@.len() == 0 ==> final (self).local_commands@ == old(
                self,
            ).local_commands@,
            old(self).pending_text@.len() > 0 ==> {
                &&& final (self).local_commands@.len() == old(self).local_commands@.len() + 1
                &&& forall|i: int|
                    0 <= i < old(self).local_commands@.len() ==> final (self).local_commands@[i]
                        == old(self).local_commands@[i]
                &&& final (self).local_commands@.last() matches DrawCommand::DrawString {
                    x,
                    y,
                    text,
                    color,
                } && x == old(self).pending_x && y == old(self).pending_y && text@ == old(
                    self,
                ).pending_text@ && color == old(self).color
            },
            final (self).cursor_x == old(self).cursor_x,
            final (self).cursor_y == old(self).cursor_y,
            final (self).color == old(self).color,
            final (self).region == old(self).region,
    {
        if self.pending_text.len() == 0 {
            return ;
        }
        let mut text: Vec<u8> = Vec::new();
        core::mem::swap(&mut text, &mut self.pending_text);
        self.local_commands.push(
            DrawCommand::DrawString {
                x: self.pending_x,
                y: self.pending_y,
                text,
                color: self.color,
            },
        );
    }

    /// Queue a command to clear the region and home the cursor.
    pub fn clear(&mut self, bg_color: u32)
        ensures
            final (self).pending_text@.len() == 0,
            final (self).cursor_x == 0 && final (self).cursor_y == 0,
            final (self).local_commands@.len() > 0,
            final (self).local_commands@.last() == (DrawCommand::Clear { color: bg_color }),
    {
        self.commit_pending_text();
        self.local_commands.push(DrawCommand::Clear { color: bg_color });
        self.cursor_x = 0;
        self.cursor_y = 0;
    }

    /// Move the whole local batch (pending text included) to the shared
    /// buffer: one lock, one append.
    pub fn flush(&mut self, target: &mut WriterBuffer)
        ensures
            final (self).local_commands@.len() == 0,
            final (self).pending_text@.len() == 0,
            old(self).local_commands@.len() == 0 && old(self).pending_text@.len() == 0
                ==> final (target).commands@ == old(target).commands@,
            old(self).pending_text@.len() == 0 ==> final (target).commands@ == old(
                target,
            ).commands@ + old(self).local_commands@,
            old(self).pending_text@.len() > 0 ==> {
                &&& final (target).commands@.len() == old(target).commands@.len() + old(
                    self,
                ).local_commands@.len() + 1
                &&& forall|i: int|
                    0 <= i < old(target).commands@.len() ==> final (target).commands@[i] == old(
                        target,
                    ).commands@[i]
                &&& forall|i: int|
                    0 <= i < old(self).local_commands@.len() ==> final (target).commands@[old(
                        target,
                    ).commands@.len() + i] == old(self).local_commands@[i]
                &&& final (target).commands@.last() matches DrawCommand::DrawString {
                    x,
                    y,
                    text,
                    color,
                } && x == old(self).pending_x && y == old(self).pending_y && text@ == old(
                    self,
                ).pending_text@ && color == old(self).color
            },
            final (target).region == old(target).region,
    {
        self.commit_pending_text();
        if self.local_commands.len() == 0 {
            return ;
        }
        let mut batch: Vec<DrawCommand> = Vec::new();
        core::mem::swap(&mut batch, &mut self.local_commands);
        target.extend_commands(batch);
    }

    /// Write a byte string: printable characters accumulate on the pending
    /// line, a newline or a full line commits it and advances the cursor,
    /// and running off the bottom queues a clear and restarts at the top.
    ///
    /// A newline byte commits the pending text as one command and homes the
    /// column; a printable byte that does not fit the line does the same and
    /// starts the next line with it.
    pub fn write_str(&mut self, s: &Vec<u8>)
        ensures
            final (self).color == old(self).color,
            final (self).region == old(self).region,
            final (self).local_commands@.len() >= old(self).local_commands@.len(),
            s@.len() == 1 && s@[0] == 10 ==> {
                &&& committed_line(*old(self), final (self).local_commands@)
                &&& final (self).pending_text@.len() == 0
                &&& final (self).cursor_x == 0
                &&& final (self).cursor_y == line_feed(old(self).cursor_y)
            },
            (s@.len() == 1 && s@[0] != 10 && old(self).cursor_x + 8 > old(self).region.width
                && old(self).cursor_y + LINE_HEIGHT + 8 <= old(self).region.height) ==> {
                &&& committed_line(*old(self), final (self).local_commands@)
                &&& final (self).pending_text@ == seq![s@[0]]
                &&& final (self).pending_x == 0
                &&& final (self).pending_y == old(self).cursor_y + LINE_HEIGHT
                &&& final (self).cursor_x == 8
                &&& final (self).cursor_y == old(self).cursor_y + LINE_HEIGHT
            },
            plain_line(*old(self), s@) ==> {
                &&& final (self).pending_text@ == old(self).pending_text@ + s@
                &&& final (self).cursor_x == old(self).cursor_x + 8 * s@.len()
                &&& final (self).cursor_y == old(self).cursor_y
                &&& final (self).local_commands@ == old(self).local_commands@
                &&& final (self).pending_x == if old(self).pending_text@.len() == 0 && s@.len()
                    > 0 {
                    old(self).cursor_x as int
                } else {
                    old(self).pending_x as int
                }
            },
    {
        let mut n: usize = 0;
        while n < s.len()
            invariant
                self.color == old(self).color,
                self.region == old(self).region,
                self.local_commands@.len() >= old(self).local_commands@.len(),
                n <= s@.len(),
                n == 0 ==> *self == *old(self),
                plain_line(*old(self), s@) ==> {
                    &&& self.pending_text@ == old(self).pending_text@ + s@.take(n as int)
                    &&& self.cursor_x == old(self).cursor_x + 8 * n
                    &&& self.cursor_y == old(self).cursor_y
                    &&& self.local_commands@ == old(self).local_commands@
                    &&& self.pending_x == if old(self).pending_text@.len() == 0 && n > 0 {
                        old(self).cursor_x as int
                    } else {
                        old(self).pending_x as int
                    }
                },
                s@.len() == 1 && s@[0] == 10 && n == 1 ==> {
                    &&& committed_line(*old(self), self.local_commands@)
                    &&& self.pending_text@.len() == 0
                    &&& self.cursor_x == 0
                    &&& self.cursor_y == line_feed(old(self).cursor_y)
                },
                (s@.len() == 1 && s@[0] != 10 && old(self).cursor_x + 8 > old(self).region.width
                    && old(self).cursor_y + LINE_HEIGHT + 8 <= old(self).region.height && n == 1)
                    ==> {
                    &&& committed_line(*old(self), self.local_commands@)
                    &&& self.pending_text@ == seq![s@[0]]
                    &&& self.pending_x == 0
                    &&& self.pending_y == old(self).cursor_y + LINE_HEIGHT
                    &&& self.cursor_x == 8
                    &&& self.cursor_y == old(self).cursor_y + LINE_HEIGHT
                },
            decreases s@.len() - n,
        {
            let ch = s[n];
            if ch == 10 {
                self.commit_pending_text();
                self.cursor_x = 0;
                if self.cursor_y <= u32::MAX - LINE_HEIGHT - 8 {
                    self.cursor_y = self.cursor_y + LINE_HEIGHT;
                }
            } else {
                if (self.cursor_x as u64) + 8 > self.region.width as u64 {
                    // Wrap: commit the line and start the next.
                    self.commit_pending_text();
                    self.cursor_x = 0;
                    if self.cursor_y <= u32::MAX - LINE_HEIGHT - 8 {
                        self.cursor_y = self.cursor_y + LINE_HEIGHT;
                    }
                }
                if (self.cursor_y as u64) + 8 > self.region.height as u64 {
                    // Off the bottom: clear the region and restart.
                    self.commit_pending_text();
                    self.local_commands.push(DrawCommand::Clear { color: 0 });
                    self.cursor_y = 0;
                }
                if self.pending_text.len() == 0 {
                    self.pending_x = self.cursor_x;
                    self.pending_y = self.cursor_y;
                }
                if self.pending_text.len() < 0x0FFF_FFFF {
                    self.pending_text.push(ch);
                    self.cursor_x = self.cursor_x + 8;
                }
            }
            proof {
                if plain_line(*old(self), s@) {
                    assert(s@.take(n + 1 as int) =~= s@.take(n as int).push(s@[n as int]));
                    assert(self.pending_text@ =~= old(self).pending_text@ + s@.take(n + 1));
                }
            }
            n = n + 1;
        }
        proof {
            if plain_line(*old(self), s@) {
                assert(s@.take(s@.len() as int) =~= s@);
            }
        }
    }
}

/// The common fast path of a write: no newline bytes, the text fits on the
/// current line, the line fits the region, and the pending batch has room.
pub open spec fn plain_line(w: TaskWriter, s: Seq<u8>) -> bool {
    &&& forall|i: int| 0 <= i < s.len() ==> s[i] != 10
    &&& w.cursor_x + 8 * s.len() <= w.region.width
    &&& w.cursor_y + 8 <= w.region.height
    &&& w.pending_text@.len() + s.len() < 0x0FFF_FFFF
}

/// The early-boot console: draws characters straight into an owned pixel
/// buffer with a moving cursor, before the compositor exists.
pub struct FramebufferWriter {
    pub pixels: Vec<u32>,
    pub width: u32,
    pub height: u32,
    pub x: u32,
    pub y: u32,
    pub color: u32,
}

impl FramebufferWriter {
    /// The pixel buffer matches the geometry and the cursor can always grow
    /// by one glyph without leaving the coordinate space.
    pub open spec fn wf(self) -> bool {
        &&& self.pixels@.len() == self.width * self.height
        &&& self.width >= 1
        &&& self.x <= self.width + 8
        &&& self.y + LINE_HEIGHT + 8 <= u32::MAX
    }

    /// A writer over a black screen of the given geometry.
    pub fn new(width: u32, height: u32, color: u32) -> (r: Self)
        requires
            width >= 1,
            width * height <= usize::MAX,
        ensures
            r.wf(),
            r.width == width,
            r.height == height,
            r.x == 0 && r.y == 0,
            r.color == color,
            forall|i: int| 0 <= i < r.pixels@.len() ==> r.pixels@[i] == 0,
    {
        proof {
            assert(width * height >= 0) by (nonlinear_arith);
        }
        let n: usize = (width as usize) * (height as usize);
        let mut pixels: Vec<u32> = Vec::new();
        let mut i: usize = 0;
        while i < n
            invariant
                i == pixels@.len() <= n,
                forall|j: int| 0 <= j < i ==> pixels@[j] == 0,
            decreases n - i,
        {
            pixels.push(0);
            i = i + 1;
        }
        Self { pixels, width, height, x: 0, y: 0, color }
    }

    /// Move the cursor.
    pub fn set_position(&mut self, x: u32, y: u32)
        requires
            old(self).wf(),
            x <= old(self).width,
            y + LINE_HEIGHT + 8 <= u32::MAX,
        ensures
            final (self).wf(),
            *final (self) == (FramebufferWriter { x, y, ..*old(self) }),
    {
        self.x = x;
        self.y = y;
    }

    /// Change the text colour.
    pub fn set_color(&mut self, color: u32)
        requires
            old(self).wf(),
        ensures
            final (self).wf(),
            *final (self) == (FramebufferWriter { color, ..*old(self) }),
    {
        self.color = color;
    }

    /// Start the next line: home the column and move one line down,
    /// saturating near the top of the coordinate space.
    pub fn newline(&mut self)
        requires
            old(self).wf(),
        ensures
            final (self).wf(),
            final (self).x == 0,
            final (self).y == if old(self).y <= u32::MAX - 2 * (LINE_HEIGHT + 8) {
                old(self).y + LINE_HEIGHT
            } else {
                old(self).y as int
            },
            final (self).pixels == old(self).pixels,
            final (self).width == old(self).width,
            final (self).height == old(self).height,
            final (self).color == old(self).color,
    {
        self.x = 0;
        if self.y <= u32::MAX - 2 * (LINE_HEIGHT + 8) {
            self.y = self.y + LINE_HEIGHT;
        }
    }

    /// Fill the whole screen with one colour and home the cursor.
    pub fn clear_screen(&mut self, color: u32)
        requires
            old(self).wf(),
        ensures
            final (self).wf(),
            final (self).width == old(self).width,
            final (self).height == old(self).height,
            final (self).x == 0 && final (self).y == 0,
            forall|i: int| 0 <= i < final (self).pixels@.len() ==> final (self).pixels@[i] == color,
            final (self).pixels@.len() == old(self).pixels@.len(),
    {
        let n = self.pixels.len();
        let mut pixels: Vec<u32> = Vec::new();
        let mut i: usize = 0;
        while i < n
            invariant
                i == pixels@.len() <= n,
                forall|j: int| 0 <= j < i ==> pixels@[j] == color,
            decreases n - i,
        {
            pixels.push(color);
            i = i + 1;
        }
        self.pixels = pixels;
        self.x = 0;
        self.y = 0;
    }

    /// Write a byte string with the given glyph table, advancing the cursor,
    /// wrapping at the right edge and feeding lines on newline bytes. Every
    /// drawn character is the reference rasterisation at the cursor it was
    /// drawn at.
    pub fn write_str(&mut self, s: &Vec<u8>, font: &Font)
        requires
            old(self).wf(),
            font.wf(),
        ensures
            final (self).wf(),
            final (self).width == old(self).width,
            final (self).height == old(self).height,
            final (self).color == old(self).color,
            final (self).pixels@.len() == old(self).pixels@.len(),
            fbw_plain_line(*old(self), s@) ==> final (self).pixels@ == super::draw::rasterize_text(
                old(self).pixels@,
                *font,
                old(self).width as int,
                old(self).x as int,
                old(self).y as int,
                s@,
                old(self).color,
            ) && final (self).x == old(self).x + 8 * s@.len() && final (self).y == old(self).y,
            s@.len() == 1 && s@[0] == 10 ==> final (self).pixels == old(self).pixels
                && final (self).x == 0 && final (self).y == (if old(self).y <= u32::MAX - 2 * (
            LINE_HEIGHT + 8) {
                old(self).y + LINE_HEIGHT
            } else {
                old(self).y as int
            }),
    {
        let mut n: usize = 0;
        proof {
            assert(s@.skip(0) =~= s@);
        }
        while n < s.len()
            invariant
                self.wf(),
                font.wf(),
                self.width == old(self).width,
                self.height == old(self).height,
                self.color == old(self).color,
                self.pixels@.len() == old(self).pixels@.len(),
                n <= s@.len(),
                n == 0 ==> *self == *old(self),
                s@.len() == 1 && s@[0] == 10 && n == 1 ==> self.pixels == old(self).pixels
                    && self.x == 0 && self.y == (if old(self).y <= u32::MAX - 2 * (LINE_HEIGHT
                    + 8) {
                    old(self).y + LINE_HEIGHT
                } else {
                    old(self).y as int
                }),
                fbw_plain_line(*old(self), s@) ==> {
                    &&& self.x == old(self).x + 8 * n
                    &&& self.y == old(self).y
                    &&& super::draw::rasterize_text(
                        old(self).pixels@,
                        *font,
                        old(self).width as int,
                        old(self).x as int,
                        old(self).y as int,
                        s@,
                        old(self).color,
                    ) == super::draw::rasterize_text(
                        self.pixels@,
                        *font,
                        self.width as int,
                        self.x as int,
                        self.y as int,
                        s@.skip(n as int),
                        self.color,
                    )
                },
            decreases s@.len() - n,
        {
            let ch = s[n];
            if ch == 10 {
                self.newline();
            } else {
                if (self.x as u64) + 8 > self.width as u64 {
                    self.newline();
                }
                let mut pixels: Vec<u32> = Vec::new();
                core::mem::swap(&mut pixels, &mut self.pixels);
                draw_char(&mut pixels, self.width, self.x, self.y, ch, self.color, font);
                core::mem::swap(&mut pixels, &mut self.pixels);
                proof {
                    if fbw_plain_line(*old(self), s@) {
                        assert(s@.skip(n as int)[0] == s@[n as int]);
                        assert(s@.skip(n as int).skip(1) =~= s@.skip(n as int + 1));
                    }
                }
                self.x = self.x + 8;
            }
            n = n + 1;
        }
        proof {
            if fbw_plain_line(*old(self), s@) {
                assert(s@.skip(s@.len() as int) =~= Seq::<u8>::empty());
            }
        }
    }
}

/// The common fast path of console output: no newline bytes and the text
/// fits on the current line.
pub open spec fn fbw_plain_line(w: FramebufferWriter, s: Seq<u8>) -> bool {
    &&& forall|i: int| 0 <= i < s.len() ==> s[i] != 10
    &&& w.x + 8 * s.len() <= w.width
}

} // verus!
