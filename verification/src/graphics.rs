//! The display stack: pixel regions, the glyph table, the verified
//! rasteriser, per-task command buffers, the shadow framebuffer with
//! dirty-rectangle tracking, and the compositor that merges command buffers
//! into it.

pub mod buffer;
pub mod compositor;
pub mod draw;
pub mod font;
pub mod region;
pub mod shadow_buffer;
pub mod writer;
