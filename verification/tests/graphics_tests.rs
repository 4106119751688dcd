//! Display stack behaviour: rasterisation against the glyph table, dirty
//! rectangles, blitting, command batching and the compositor pass.

use je4os::graphics::buffer::{DrawCommand, WriterBuffer};
use je4os::graphics::compositor::{init_compositor, CompositorConfig};
use je4os::graphics::draw::{draw_char, draw_rect, draw_string};
use je4os::graphics::font::{Font, FONT_GLYPH_COUNT};
use je4os::graphics::region::Region;
use je4os::graphics::shadow_buffer::ShadowBuffer;
use je4os::graphics::writer::TaskWriter;

/// A glyph table whose character `c` lights pixel (col, row) exactly when
/// `(col + row) % 3 == c % 3` — arbitrary but nontrivial, standing in for
/// the font bitmap the kernel ships.
fn test_font() -> Font {
    let mut glyphs: Vec<u64> = Vec::new();
    for g in 0..FONT_GLYPH_COUNT {
        let ch = g as u64 + 32;
        let mut bits: u64 = 0;
        for row in 0..8u64 {
            for col in 0..8u64 {
                if (col + row) % 3 == ch % 3 {
                    bits |= 1u64 << (8 * row + col);
                }
            }
        }
        glyphs.push(bits);
    }
    Font::new(glyphs).unwrap()
}

/// The reference rasterisation a character must produce, computed here
/// independently: paint pixel (x+col, y+row) for each set glyph bit.
fn reference_char(pixels: &mut Vec<u32>, width: u32, x: u32, y: u32, ch: u8, color: u32, font: &Font) {
    if !(32..=126).contains(&ch) {
        return;
    }
    let g = font.glyphs[(ch - 32) as usize];
    for row in 0..8u32 {
        for col in 0..8u32 {
            if (g >> (8 * row + col)) & 1 == 1 {
                let px = x + col;
                let py = y + row;
                if px < width {
                    let i = (py as usize) * (width as usize) + (px as usize);
                    if i < pixels.len() {
                        pixels[i] = color;
                    }
                }
            }
        }
    }
}

#[test]
fn draw_string_matches_reference_rasterisation() {
    // Drawing a string into a fresh buffer produces exactly the pixels a
    // reference rasterisation of the same text produces.
    let font = test_font();
    let width = 40u32;
    let height = 12u32;
    let mut actual = vec![0u32; (width * height) as usize];
    let text: Vec<u8> = b"Hi!".to_vec();
    draw_string(&mut actual, width, 3, 2, &text, 0xFF00FF, &font);

    let mut expected = vec![0u32; (width * height) as usize];
    let mut cx = 3u32;
    for &ch in text.iter() {
        reference_char(&mut expected, width, cx, 2, ch, 0xFF00FF, &font);
        cx += 8;
    }
    assert_eq!(actual, expected);
}

#[test]
fn draw_clips_at_edges() {
    let font = test_font();
    let width = 10u32;
    let mut pixels = vec![0u32; 10 * 4];
    // Mostly off the right edge and below the bottom: nothing outside is
    // touched, and the call does not fault.
    draw_char(&mut pixels, width, 8, 2, b'A', 1, &font);
    draw_char(&mut pixels, width, 0, 100, b'A', 1, &font);
    let mut expected = vec![0u32; 10 * 4];
    reference_char(&mut expected, width, 8, 2, b'A', 1, &font);
    assert_eq!(pixels, expected);
    // An unprintable byte draws nothing.
    let before = pixels.clone();
    draw_char(&mut pixels, width, 0, 0, 7, 1, &font);
    assert_eq!(pixels, before);
}

#[test]
fn draw_rect_fills_exactly() {
    let width = 8u32;
    let mut pixels = vec![0u32; 8 * 8];
    draw_rect(&mut pixels, width, 2, 1, 3, 2, 9);
    for y in 0..8u32 {
        for x in 0..8u32 {
            let v = pixels[(y * 8 + x) as usize];
            if (2..5).contains(&x) && (1..3).contains(&y) {
                assert_eq!(v, 9);
            } else {
                assert_eq!(v, 0);
            }
        }
    }
}

#[test]
fn shadow_buffer_tracks_and_blits_dirty_rect() {
    let mut shadow = ShadowBuffer::new(8, 8);
    assert!(shadow.take_dirty_rect().is_none());
    shadow.mark_dirty(&Region::new(1, 1, 2, 2));
    shadow.mark_dirty(&Region::new(5, 5, 2, 2));
    let d = shadow.dirty_rect.unwrap();
    // Two marks merge into their bounding box.
    assert_eq!((d.x, d.y, d.width, d.height), (1, 1, 6, 6));

    // Paint everything, dirty only a window, and blit: the hardware buffer
    // changes inside the window alone.
    shadow.clear(7);
    let _ = shadow.take_dirty_rect();
    shadow.mark_dirty(&Region::new(2, 2, 2, 1));
    let mut hw = vec![0u32; 64];
    shadow.blit_to(&mut hw);
    for y in 0..8u32 {
        for x in 0..8u32 {
            let v = hw[(y * 8 + x) as usize];
            if (2..4).contains(&x) && y == 2 {
                assert_eq!(v, 7);
            } else {
                assert_eq!(v, 0);
            }
        }
    }
    // The dirty rectangle was consumed: a second blit copies nothing.
    let mut hw2 = vec![3u32; 64];
    shadow.blit_to(&mut hw2);
    assert!(hw2.iter().all(|&v| v == 3));
}

#[test]
fn compositor_renders_dirty_buffers_and_counts_frames() {
    let font = test_font();
    let config = CompositorConfig {
        fb_base: 0xC000_0000,
        fb_width: 16,
        fb_height: 16,
        refresh_interval_ticks: 2,
    };
    let mut comp = init_compositor(config);
    assert_eq!(comp.frame_count(), 0);
    assert_eq!(comp.screen_size(), (16, 16));
    let h = comp.register_writer(Region::new(4, 4, 8, 8));
    comp.append_commands(
        h,
        vec![DrawCommand::FillRect { x: 1, y: 1, width: 2, height: 2, color: 5 }],
    );
    let mut shadow = ShadowBuffer::new(16, 16);
    comp.composite_pass(&mut shadow, &font);
    assert_eq!(comp.frame_count(), 1);
    // The rectangle lands at the region offset.
    for y in 0..16u32 {
        for x in 0..16u32 {
            let v = shadow.pixel(x, y);
            if (5..7).contains(&x) && (5..7).contains(&y) {
                assert_eq!(v, 5);
            } else {
                assert_eq!(v, 0);
            }
        }
    }
    // A second pass with nothing dirty leaves the pixels alone.
    comp.composite_pass(&mut shadow, &font);
    assert_eq!(comp.frame_count(), 2);
    assert_eq!(shadow.pixel(5, 5), 5);
}

#[test]
fn task_writer_batches_and_coalesces() {
    let mut target = WriterBuffer::new(Region::new(0, 0, 160, 60));
    let mut w = TaskWriter::new(&target, 0xFFFFFF);
    // Nothing reaches the shared buffer before a flush.
    w.write_str(&b"AB".to_vec());
    assert_eq!(target.commands_len(), 0);
    w.write_str(&b"CD\nE".to_vec());
    w.flush(&mut target);
    // The first line coalesced into one text command; the newline committed
    // it; the second line is a second command.
    assert_eq!(target.commands_len(), 2);
    match target.commands(0) {
        DrawCommand::DrawString { x, y, text, color } => {
            assert_eq!((*x, *y), (0, 0));
            assert_eq!(text, &b"ABCD".to_vec());
            assert_eq!(*color, 0xFFFFFF);
        },
        _ => panic!("expected a text command"),
    }
    match target.commands(1) {
        DrawCommand::DrawString { x, y, text, .. } => {
            assert_eq!((*x, *y), (0, 10));
            assert_eq!(text, &b"E".to_vec());
        },
        _ => panic!("expected a text command"),
    }
    assert!(target.is_dirty());
    target.clear_commands();
    assert!(!target.is_dirty());
    assert_eq!(target.commands_len(), 0);
}

#[test]
fn framebuffer_writer_draws_at_cursor() {
    let font = test_font();
    let mut w = je4os::graphics::writer::FramebufferWriter::new(64, 16, 0xAA);
    w.set_position(8, 4);
    w.write_str(&b"ok".to_vec(), &font);
    assert_eq!(w.x, 24);
    let mut expected = vec![0u32; 64 * 16];
    reference_char(&mut expected, 64, 8, 4, b'o', 0xAA, &font);
    reference_char(&mut expected, 64, 16, 4, b'k', 0xAA, &font);
    assert_eq!(w.pixels, expected);
    // A newline homes the column and feeds the line.
    w.write_str(&b"\n".to_vec(), &font);
    assert_eq!(w.x, 0);
    assert_eq!(w.y, 14);
    w.set_color(0xBB);
    assert_eq!(w.color, 0xBB);
    w.clear_screen(1);
    assert!(w.pixels.iter().all(|&p| p == 1));
    assert_eq!((w.x, w.y), (0, 0));
}

#[test]
fn memory_type_names() {
    assert_eq!(je4os::boot_info::memory_type_str(7), "Available");
    assert_eq!(je4os::boot_info::memory_type_str(0), "Reserved");
    assert_eq!(je4os::boot_info::memory_type_str(11), "MMIO");
    assert_eq!(je4os::boot_info::memory_type_str(99), "Unknown");
}

#[test]
fn region_contains_and_edges() {
    let r = Region::new(2, 3, 4, 5);
    assert_eq!(r.right(), 6);
    assert_eq!(r.bottom(), 8);
    assert!(r.contains(2, 3));
    assert!(r.contains(5, 7));
    assert!(!r.contains(6, 3));
    assert!(!r.contains(2, 8));
}
