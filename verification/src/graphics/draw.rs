//! The rasteriser: glyphs, text and filled rectangles drawn into a row-major
//! pixel buffer, each exactly the reference rasterisation of its spec.
//!
//! A buffer is a `Vec<u32>` of packed 32-bit colours with a row stride of
//! `width`; drawing clips at the right edge and at the end of the buffer.

use super::font::Font;
use vstd::arithmetic::div_mod::{
    lemma_fundamental_div_mod_converse_div, lemma_fundamental_div_mod_converse_mod,
};
use vstd::prelude::*;

verus! {

/// Whether drawing `ch` at (`x`, `y`) paints the pixel with linear index
/// `i`: the pixel lies in the 8x8 cell and its glyph bit is set.
pub open spec fn char_hits(font: Font, width: int, x: int, y: int, ch: u8, i: int) -> bool {
    let px = i % width;
    let py = i / width;
    &&& x <= px < x + 8
    &&& y <= py < y + 8
    &&& font.spec_pixel_on(ch, px - x, py - y)
}

/// The reference rasterisation of one character: every glyph pixel takes the
/// colour, every other pixel keeps its value.
pub open spec fn rasterize_char(
    p: Seq<u32>,
    font: Font,
    width: int,
    x: int,
    y: int,
    ch: u8,
    color: u32,
) -> Seq<u32> {
    Seq::new(
        p.len(),
        |i: int|
            if char_hits(font, width, x, y, ch, i) {
                color
            } else {
                p[i]
            },
    )
}

/// The reference rasterisation of a byte string: its characters drawn left
/// to right, 8 pixels apart.
pub open spec fn rasterize_text(
    p: Seq<u32>,
    font: Font,
    width: int,
    x: int,
    y: int,
    text: Seq<u8>,
    color: u32,
) -> Seq<u32>
    decreases text.len(),
{
    if text.len() == 0 {
        p
    } else {
        rasterize_text(
            rasterize_char(p, font, width, x, y, text[0], color),
            font,
            width,
            x + 8,
            y,
            text.skip(1),
            color,
        )
    }
}

/// A character raster changes pixels only inside its 8x8 cell.
pub proof fn lemma_rasterize_char_bounds(
    p: Seq<u32>,
    font: Font,
    width: int,
    x: int,
    y: int,
    ch: u8,
    color: u32,
)
    ensures
        forall|i: int|
            0 <= i < p.len() && #[trigger] rasterize_char(p, font, width, x, y, ch, color)[i]
                != p[i] ==> x <= i % width < x + 8 && y <= i / width < y + 8,
{
}

/// A text raster changes pixels only inside the written line: the cells of
/// its characters, 8 pixels tall, 8 per character from `x`.
pub proof fn lemma_rasterize_text_bounds(
    p: Seq<u32>,
    font: Font,
    width: int,
    x: int,
    y: int,
    text: Seq<u8>,
    color: u32,
)
    ensures
        forall|i: int|
            0 <= i < p.len() && #[trigger] rasterize_text(p, font, width, x, y, text, color)[i]
                != p[i] ==> x <= i % width < x + 8 * text.len() && y <= i / width < y + 8,
    decreases text.len(),
{
    if text.len() > 0 {
        let mid = rasterize_char(p, font, width, x, y, text[0], color);
        lemma_rasterize_char_bounds(p, font, width, x, y, text[0], color);
        lemma_rasterize_text_bounds(mid, font, width, x + 8, y, text.skip(1), color);
        assert forall|i: int|
            0 <= i < p.len() && #[trigger] rasterize_text(p, font, width, x, y, text, color)[i]
                != p[i] implies x <= i % width < x + 8 * text.len() && y <= i / width < y
            + 8 by {
            assert(rasterize_text(p, font, width, x, y, text, color) == rasterize_text(
                mid,
                font,
                width,
                x + 8,
                y,
                text.skip(1),
                color,
            ));
            if mid[i] == p[i] {
                assert(rasterize_text(mid, font, width, x + 8, y, text.skip(1), color)[i]
                    != mid[i]);
            }
        }
    }
}

/// Rendering text never changes the buffer size.
pub proof fn lemma_rasterize_text_len(
    p: Seq<u32>,
    font: Font,
    width: int,
    x: int,
    y: int,
    text: Seq<u8>,
    color: u32,
)
    ensures
        rasterize_text(p, font, width, x, y, text, color).len() == p.len(),
    decreases text.len(),
{
    if text.len() > 0 {
        lemma_rasterize_text_len(
            rasterize_char(p, font, width, x, y, text[0], color),
            font,
            width,
            x + 8,
            y,
            text.skip(1),
            color,
        );
    }
}

/// Whether the filled rectangle at (`x`, `y`) of size `w`x`h` covers the
/// pixel with linear index `i`.
pub open spec fn rect_hits(width: int, x: int, y: int, w: int, h: int, i: int) -> bool {
    let px = i % width;
    let py = i / width;
    x <= px < x + w && y <= py < y + h
}

/// The reference rasterisation of a filled rectangle.
pub open spec fn rasterize_rect(
    p: Seq<u32>,
    width: int,
    x: int,
    y: int,
    w: int,
    h: int,
    color: u32,
) -> Seq<u32> {
    Seq::new(
        p.len(),
        |i: int|
            if rect_hits(width, x, y, w, h, i) {
                color
            } else {
                p[i]
            },
    )
}

/// A pixel coordinate below the stride maps to its linear index and back.
pub proof fn lemma_pixel_index(width: int, px: int, py: int)
    requires
        width >= 1,
        0 <= px < width,
        0 <= py,
    ensures
        (py * width + px) % width == px,
        (py * width + px) / width == py,
{
    lemma_fundamental_div_mod_converse_mod(py * width + px, width, py, px);
    lemma_fundamental_div_mod_converse_div(py * width + px, width, py, px);
}

/// The rasterisation of one character restricted to its first `k` cells in
/// row-major order; cell `8*row + col` paints pixel (`x+col`, `y+row`).
spec fn rasterize_char_upto(
    p: Seq<u32>,
    font: Font,
    width: int,
    x: int,
    y: int,
    ch: u8,
    color: u32,
    k: int,
) -> Seq<u32> {
    Seq::new(
        p.len(),
        |i: int|
            if char_hits(font, width, x, y, ch, i) && (i / width - y) * 8 + (i % width - x) < k {
                color
            } else {
                p[i]
            },
    )
}

/// Draw one character: exactly the reference rasterisation. Characters
/// outside the printable range draw nothing; pixels beyond the right edge or
/// the end of the buffer are clipped.
pub fn draw_char(
    pixels: &mut Vec<u32>,
    width: u32,
    x: u32,
    y: u32,
    ch: u8,
    color: u32,
    font: &Font,
) -> (nothing: ())
    requires
        width >= 1,
        font.wf(),
        x + 8 <= u32::MAX,
        y + 8 <= u32::MAX,
    ensures
        final (pixels)@ == rasterize_char(old(pixels)@, *font, width as int, x as int, y as int, ch, color),
{
    let ghost p0 = pixels@;
    let mut row: u32 = 0;
    while row < 8
        invariant
            width >= 1,
            font.wf(),
            x + 8 <= u32::MAX,
            y + 8 <= u32::MAX,
            row <= 8,
            pixels@ == rasterize_char_upto(
                p0,
                *font,
                width as int,
                x as int,
                y as int,
                ch,
                color,
                8 * row,
            ),
        decreases 8 - row,
    {
        let mut col: u32 = 0;
        while col < 8
            invariant
                width >= 1,
                font.wf(),
                x + 8 <= u32::MAX,
                y + 8 <= u32::MAX,
                row < 8,
                col <= 8,
                pixels@ == rasterize_char_upto(
                    p0,
                    *font,
                    width as int,
                    x as int,
                    y as int,
                    ch,
                    color,
                    8 * row + col,
                ),
            decreases 8 - col,
        {
            let ghost pk = pixels@;
            if font.pixel_on(ch, col, row) {
                let px = x + col;
                let py = y + row;
                if px < width {
                    proof {
                        assert((py as int) * (width as int) + (px as int) < 0x1_0000_0000_0000_0000)
                            by (nonlinear_arith)
                            requires
                                py <= 0xFFFF_FFFFu32,
                                width <= 0xFFFF_FFFFu32,
                                px <= 0xFFFF_FFFFu32,
                        ;
                    }
                    let idx = (py as u64) * (width as u64) + (px as u64);
                    proof {
                        lemma_pixel_index(width as int, px as int, py as int);
                    }
                    if idx < pixels.len() as u64 {
                        pixels.set(idx as usize, color);
                    }
                }
            }
            proof {
                lemma_char_cell_step(
                    p0,
                    pk,
                    pixels@,
                    *font,
                    width as int,
                    x as int,
                    y as int,
                    ch,
                    color,
                    row as int,
                    col as int,
                );
            }
            col = col + 1;
        }
        row = row + 1;
    }
    proof {
        assert(pixels@ =~= rasterize_char(
            p0,
            *font,
            width as int,
            x as int,
            y as int,
            ch,
            color,
        ));
    }
}

/// One cell of the character raster: painting cell `(row, col)` (when its
/// glyph bit is set and the pixel exists) advances the partial raster by
/// one.
proof fn lemma_char_cell_step(
    p0: Seq<u32>,
    pk: Seq<u32>,
    pnext: Seq<u32>,
    font: Font,
    width: int,
    x: int,
    y: int,
    ch: u8,
    color: u32,
    row: int,
    col: int,
)
    requires
        width >= 1,
        font.wf(),
        x >= 0,
        y >= 0,
        0 <= row < 8,
        0 <= col < 8,
        pk == rasterize_char_upto(p0, font, width, x, y, ch, color, 8 * row + col),
        ({
            let px = x + col;
            let py = y + row;
            let i = py * width + px;
            if font.spec_pixel_on(ch, col, row) && px < width && 0 <= i < p0.len() {
                pnext == pk.update(i, color)
            } else {
                pnext == pk
            }
        }),
    ensures
        pnext == rasterize_char_upto(p0, font, width, x, y, ch, color, 8 * row + col + 1),
{
    let k = 8 * row + col;
    let px = x + col;
    let py = y + row;
    let i0 = py * width + px;
    if 0 <= px < width && 0 <= py {
        lemma_pixel_index(width, px, py);
        if font.spec_pixel_on(ch, col, row) && 0 <= i0 < p0.len() {
            assert(char_hits(font, width, x, y, ch, i0));
            assert((i0 / width - y) * 8 + (i0 % width - x) == k);
        }
    }
    assert forall|i: int| 0 <= i < p0.len() implies pnext[i] == rasterize_char_upto(
        p0,
        font,
        width,
        x,
        y,
        ch,
        color,
        k + 1,
    )[i] by {
        if char_hits(font, width, x, y, ch, i) {
            if (i / width - y) * 8 + (i % width - x) == k {
                // This very cell: the pixel is i0 and its bit is set.
                let a = i / width - y;
                let b = i % width - x;
                assert(0 <= b < 8 && 0 <= a < 8 && a * 8 + b == 8 * row + col);
                assert(b == col && a == row);
                assert(font.spec_pixel_on(ch, col, row));
                assert(px < width) by {
                    vstd::arithmetic::div_mod::lemma_mod_bound(i, width);
                }
                vstd::arithmetic::div_mod::lemma_fundamental_div_mod(i, width);
                assert(i == width * (y + row) + (x + col));
                assert(width * py == py * width) by (nonlinear_arith);
                assert(i == i0);
            }
        }
    }
    assert(pnext =~= rasterize_char_upto(p0, font, width, x, y, ch, color, k + 1));
}

/// Draw a byte string left to right, 8 pixels per character: exactly the
/// reference rasterisation of the text.
pub fn draw_string(
    pixels: &mut Vec<u32>,
    width: u32,
    x: u32,
    y: u32,
    text: &Vec<u8>,
    color: u32,
    font: &Font,
) -> (nothing: ())
    requires
        width >= 1,
        font.wf(),
        x + 8 * text@.len() + 8 <= u32::MAX,
        y + 8 <= u32::MAX,
    ensures
        final (pixels)@ == rasterize_text(
            old(pixels)@,
            *font,
            width as int,
            x as int,
            y as int,
            text@,
            color,
        ),
        final (pixels)@.len() == old(pixels)@.len(),
{
    proof {
        lemma_rasterize_text_len(
            pixels@,
            *font,
            width as int,
            x as int,
            y as int,
            text@,
            color,
        );
    }
    let ghost p0 = pixels@;
    proof {
        assert(text@.skip(0) =~= text@);
    }
    let mut n: usize = 0;
    let mut cur_x: u32 = x;
    while n < text.len()
        invariant
            width >= 1,
            font.wf(),
            x + 8 * text@.len() + 8 <= u32::MAX,
            y + 8 <= u32::MAX,
            n <= text@.len(),
            cur_x == x + 8 * n,
            rasterize_text(p0, *font, width as int, x as int, y as int, text@, color)
                == rasterize_text(
                pixels@,
                *font,
                width as int,
                cur_x as int,
                y as int,
                text@.skip(n as int),
                color,
            ),
        decreases text@.len() - n,
    {
        let ghost before = pixels@;
        draw_char(pixels, width, cur_x, y, text[n], color, font);
        proof {
            assert(text@.skip(n as int)[0] == text@[n as int]);
            assert(text@.skip(n as int).skip(1) =~= text@.skip(n as int + 1));
        }
        cur_x = cur_x + 8;
        n = n + 1;
    }
    proof {
        assert(text@.skip(text@.len() as int) =~= Seq::<u8>::empty());
    }
}

/// A rectangle raster changes pixels only inside the rectangle.
pub proof fn lemma_rasterize_rect_bounds(
    p: Seq<u32>,
    width: int,
    x: int,
    y: int,
    w: int,
    h: int,
    color: u32,
)
    ensures
        forall|i: int|
            0 <= i < p.len() && #[trigger] rasterize_rect(p, width, x, y, w, h, color)[i] != p[i]
                ==> x <= i % width < x + w && y <= i / width < y + h,
{
}

/// The rasterisation of a rectangle restricted to cells before `k` in
/// row-major order within the rectangle; cell `r * w + c` paints pixel
/// (`x+c`, `y+r`).
spec fn rasterize_rect_upto(
    p: Seq<u32>,
    width: int,
    x: int,
    y: int,
    w: int,
    h: int,
    color: u32,
    k: int,
) -> Seq<u32> {
    Seq::new(
        p.len(),
        |i: int|
            if rect_hits(width, x, y, w, h, i) && (i / width - y) * w + (i % width - x) < k {
                color
            } else {
                p[i]
            },
    )
}

/// Fill a rectangle: exactly the reference rasterisation, clipped at the
/// right edge and the end of the buffer.
pub fn draw_rect(
    pixels: &mut Vec<u32>,
    width: u32,
    x: u32,
    y: u32,
    w: u32,
    h: u32,
    color: u32,
) -> (nothing: ())
    requires
        width >= 1,
        x + w <= u32::MAX,
        y + h <= u32::MAX,
    ensures
        final (pixels)@ == rasterize_rect(
            old(pixels)@,
            width as int,
            x as int,
            y as int,
            w as int,
            h as int,
            color,
        ),
{
    let ghost p0 = pixels@;
    let mut row: u32 = 0;
    while row < h
        invariant
            width >= 1,
            x + w <= u32::MAX,
            y + h <= u32::MAX,
            row <= h,
            pixels@ == rasterize_rect_upto(
                p0,
                width as int,
                x as int,
                y as int,
                w as int,
                h as int,
                color,
                w * row,
            ),
        decreases h - row,
    {
        let mut col: u32 = 0;
        while col < w
            invariant
                width >= 1,
                x + w <= u32::MAX,
                y + h <= u32::MAX,
                row < h,
                col <= w,
                pixels@ == rasterize_rect_upto(
                    p0,
                    width as int,
                    x as int,
                    y as int,
                    w as int,
                    h as int,
                    color,
                    w * row + col,
                ),
            decreases w - col,
        {
            let ghost pk = pixels@;
            let px = x + col;
            let py = y + row;
            if px < width {
                proof {
                    assert((py as int) * (width as int) + (px as int) < 0x1_0000_0000_0000_0000)
                        by (nonlinear_arith)
                        requires
                            py <= 0xFFFF_FFFFu32,
                            width <= 0xFFFF_FFFFu32,
                            px <= 0xFFFF_FFFFu32,
                    ;
                }
                let idx = (py as u64) * (width as u64) + (px as u64);
                proof {
                    lemma_pixel_index(width as int, px as int, py as int);
                }
                if idx < pixels.len() as u64 {
                    pixels.set(idx as usize, color);
                }
            }
            proof {
                lemma_rect_cell_step(
                    p0,
                    pk,
                    pixels@,
                    width as int,
                    x as int,
                    y as int,
                    w as int,
                    h as int,
                    color,
                    row as int,
                    col as int,
                );
            }
            col = col + 1;
        }
        proof {
            assert(w as int * row + w == w as int * (row + 1)) by (nonlinear_arith);
        }
        row = row + 1;
    }
    proof {
        assert forall|i: int| 0 <= i < p0.len() implies pixels@[i] == rasterize_rect(
            p0,
            width as int,
            x as int,
            y as int,
            w as int,
            h as int,
            color,
        )[i] by {
            if rect_hits(width as int, x as int, y as int, w as int, h as int, i) {
                assert((i / (width as int) - y) * (w as int) + (i % (width as int) - x) < (
                w as int) * (h as int)) by (nonlinear_arith)
                    requires
                        x <= i % (width as int) < x + w,
                        y <= i / (width as int) < y + h,
                ;
                assert(w as int * (h as int) <= w as int * (h as int));
            }
        }
        assert(pixels@ =~= rasterize_rect(
            p0,
            width as int,
            x as int,
            y as int,
            w as int,
            h as int,
            color,
        ));
    }
}

/// One cell of the rectangle raster: painting cell `(row, col)` advances the
/// partial raster by one.
proof fn lemma_rect_cell_step(
    p0: Seq<u32>,
    pk: Seq<u32>,
    pnext: Seq<u32>,
    width: int,
    x: int,
    y: int,
    w: int,
    h: int,
    color: u32,
    row: int,
    col: int,
)
    requires
        width >= 1,
        x >= 0,
        y >= 0,
        0 <= row < h,
        0 <= col < w,
        pk == rasterize_rect_upto(p0, width, x, y, w, h, color, w * row + col),
        ({
            let px = x + col;
            let py = y + row;
            let i = py * width + px;
            if px < width && 0 <= i < p0.len() {
                pnext == pk.update(i, color)
            } else {
                pnext == pk
            }
        }),
    ensures
        pnext == rasterize_rect_upto(p0, width, x, y, w, h, color, w * row + col + 1),
{
    let k = w * row + col;
    let px = x + col;
    let py = y + row;
    let i0 = py * width + px;
    if 0 <= px < width && 0 <= py {
        lemma_pixel_index(width, px, py);
        if 0 <= i0 < p0.len() {
            assert(rect_hits(width, x, y, w, h, i0));
            assert(row * w == w * row) by (nonlinear_arith);
            assert((i0 / width - y) * w + (i0 % width - x) == k);
        }
    }
    assert forall|i: int| 0 <= i < p0.len() implies pnext[i] == rasterize_rect_upto(
        p0,
        width,
        x,
        y,
        w,
        h,
        color,
        k + 1,
    )[i] by {
        if rect_hits(width, x, y, w, h, i) {
            if (i / width - y) * w + (i % width - x) == k {
                let a = i / width - y;
                let b = i % width - x;
                assert(0 <= b < w && 0 <= a < h && a * w + b == w * row + col);
                assert(b == col && a == row) by (nonlinear_arith)
                    requires
                        a * w + b == w * row + col,
                        0 <= b < w,
                        0 <= a,
                        0 <= col < w,
                        0 <= row,
                ;
                assert(px < width) by {
                    vstd::arithmetic::div_mod::lemma_mod_bound(i, width);
                }
                vstd::arithmetic::div_mod::lemma_fundamental_div_mod(i, width);
                assert(i == width * (y + row) + (x + col));
                assert(width * py == py * width) by (nonlinear_arith);
                assert(i == i0);
            }
        }
    }
    assert(pnext =~= rasterize_rect_upto(p0, width, x, y, w, h, color, k + 1));
}

} // verus!
