//! Draw commands and the per-writer command buffer.

use super::region::Region;
use vstd::prelude::*;

verus! {

/// One drawing command; coordinates are local to the owning region. Text is
/// a byte string over the printable ASCII range of the glyph table.
#[derive(Debug, Clone, PartialEq, Eq)]
pub enum DrawCommand {
    /// One character at (x, y).
    DrawChar { x: u32, y: u32, ch: u8, color: u32 },
    /// A byte string at (x, y).
    DrawString { x: u32, y: u32, text: Vec<u8>, color: u32 },
    /// A filled rectangle.
    FillRect { x: u32, y: u32, width: u32, height: u32, color: u32 },
    /// The whole region filled with one colour.
    Clear { color: u32 },
}

/// The commands a writer has queued for the compositor, plus the dirty flag
/// that tells the compositor there is work.
pub struct WriterBuffer {
    pub commands: Vec<DrawCommand>,
    pub dirty: bool,
    pub region: Region,
}

impl WriterBuffer {
    /// An empty buffer drawing into `region`.
    pub fn new(region: Region) -> (r: Self)
        ensures
            r.commands@.len() == 0,
            !r.dirty,
            r.region == region,
    {
        Self { commands: Vec::new(), dirty: false, region }
    }

    /// Queue one command; the buffer becomes dirty.
    pub fn push_command(&mut self, cmd: DrawCommand)
        ensures
            final (self).commands@ == old(self).commands@.push(cmd),
            final (self).dirty,
            final (self).region == old(self).region,
    {
        self.commands.push(cmd);
        self.dirty = true;
    }

    /// Queue a batch of commands; the buffer becomes dirty exactly when the
    /// batch is non-empty.
    pub fn extend_commands(&mut self, mut commands: Vec<DrawCommand>)
        ensures
            final (self).commands@ == old(self).commands@ + commands@,
            final (self).dirty == (old(self).dirty || commands@.len() > 0),
            final (self).region == old(self).region,
    {
        let added = commands.len() > 0;
        self.commands.append(&mut commands);
        if added {
            self.dirty = true;
        }
    }

    /// How many commands are queued.
    pub fn commands_len(&self) -> (r: usize)
        ensures
            r == self.commands@.len(),
    {
        self.commands.len()
    }

    /// The command at `i`.
    pub fn commands(&self, i: usize) -> (r: &DrawCommand)
        requires
            i < self.commands@.len(),
        ensures
            r == self.commands@[i as int],
    {
        &self.commands[i]
    }

    /// Drop every queued command and clear the dirty flag.
    pub fn clear_commands(&mut self)
        ensures
            final (self).commands@.len() == 0,
            !final (self).dirty,
            final (self).region == old(self).region,
    {
        self.commands = Vec::new();
        self.dirty = false;
    }

    /// Whether undrawn commands are queued.
    pub fn is_dirty(&self) -> (r: bool)
        ensures
            r == self.dirty,
    {
        self.dirty
    }

    /// The region this buffer draws into.
    pub fn region(&self) -> (r: Region)
        ensures
            r == self.region,
    {
        self.region
    }
}

} // verus!
