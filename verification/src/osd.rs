//! The on-screen display: short messages drawn in a small fixed font.

use crate::text::chars_of;
use vstd::prelude::*;

verus! {

/// Columns in a glyph.
pub const FONT_WIDTH: usize = 4;

/// Rows in a glyph.
pub const FONT_HEIGHT: usize = 6;

/// The glyphs: six rows each, four pixels a row in the low bits, leftmost
/// pixel highest. In order: the letters A to Z, the digits 0 to 9, then
/// colon, hyphen, full stop and the two round brackets.
pub const FONT_DATA: [u8; 246] = [
    0x6, 0x9, 0xF, 0x9, 0x9, 0x0,
    0xE, 0x9, 0xE, 0x9, 0xE, 0x0,
    0x7, 0x8, 0x8, 0x8, 0x7, 0x0,
    0xE, 0x9, 0x9, 0x9, 0xE, 0x0,
    0xF, 0x8, 0xE, 0x8, 0xF, 0x0,
    0xF, 0x8, 0xE, 0x8, 0x8, 0x0,
    0x7, 0x8, 0xB, 0x9, 0x7, 0x0,
    0x9, 0x9, 0xF, 0x9, 0x9, 0x0,
    0xE, 0x4, 0x4, 0x4, 0xE, 0x0,
    0x3, 0x1, 0x1, 0x9, 0x6, 0x0,
    0x9, 0xA, 0xC, 0xA, 0x9, 0x0,
    0x8, 0x8, 0x8, 0x8, 0xF, 0x0,
    0x9, 0xF, 0xF, 0x9, 0x9, 0x0,
    0x9, 0xD, 0xB, 0x9, 0x9, 0x0,
    0x6, 0x9, 0x9, 0x9, 0x6, 0x0,
    0xE, 0x9, 0xE, 0x8, 0x8, 0x0,
    0x6, 0x9, 0x9, 0xA, 0x5, 0x0,
    0xE, 0x9, 0xE, 0xA, 0x9, 0x0,
    0x7, 0x8, 0x6, 0x1, 0xE, 0x0,
    0xF, 0x4, 0x4, 0x4, 0x4, 0x0,
    0x9, 0x9, 0x9, 0x9, 0x6, 0x0,
    0x9, 0x9, 0x9, 0x5, 0x2, 0x0,
    0x9, 0x9, 0xF, 0xF, 0x9, 0x0,
    0x9, 0x5, 0x2, 0x5, 0x9, 0x0,
    0x9, 0x5, 0x2, 0x2, 0x2, 0x0,
    0xF, 0x1, 0x6, 0x8, 0xF, 0x0,
    0x6, 0x9, 0x9, 0x9, 0x6, 0x0,
    0x2, 0x6, 0x2, 0x2, 0x7, 0x0,
    0x6, 0x9, 0x2, 0x4, 0xF, 0x0,
    0xF, 0x1, 0x6, 0x1, 0xF, 0x0,
    0x8, 0xA, 0xF, 0x2, 0x2, 0x0,
    0xF, 0x8, 0xE, 0x1, 0xE, 0x0,
    0x6, 0x8, 0xE, 0x9, 0x6, 0x0,
    0xF, 0x1, 0x2, 0x4, 0x4, 0x0,
    0x6, 0x9, 0x6, 0x9, 0x6, 0x0,
    0x6, 0x9, 0x7, 0x1, 0x6, 0x0,
    0x0, 0x2, 0x0, 0x2, 0x0, 0x0,
    0x0, 0x0, 0xF, 0x0, 0x0, 0x0,
    0x0, 0x0, 0x0, 0x0, 0x2, 0x0,
    0x2, 0x4, 0x4, 0x4, 0x2, 0x0,
    0x4, 0x2, 0x2, 0x2, 0x4, 0x0,
];

/// The colour of the text: opaque yellow.
pub const TEXT_PIXEL: u32 = 0xFFFFFF00;

/// Whether (`x`, `y`) lies in the square of side `side` whose top left
/// corner is (`x0`, `y0`).
pub open spec fn in_square(x: int, y: int, x0: int, y0: int, side: int) -> bool {
    x0 <= x < x0 + side && y0 <= y < y0 + side
}

/// The part of the square that is painted before the pixel in its row `py`
/// and column `px`.
spec fn square_before(x: int, y: int, x0: int, y0: int, side: int, py: int, px: int) -> bool {
    x0 <= x < x0 + side && ((y0 <= y < y0 + py) || (y == y0 + py && x < x0 + px))
}

/// In a picture `w` wide, the pixel (`x`, `y`) is the pixel number
/// `y * w + x`, and that number leads back to `x` and `y`.
proof fn lemma_pixel_number(w: int, x: int, y: int)
    requires
        0 <= x < w,
        0 <= y,
    ensures
        (y * w + x) % w == x,
        (y * w + x) / w == y,
        y * w + x >= 0,
{
    vstd::arithmetic::div_mod::lemma_fundamental_div_mod_converse(y * w + x, w, y, x);
    assert(y * w >= 0) by (nonlinear_arith)
        requires
            y >= 0,
            w > 0,
    ;
}

/// A pixel inside a picture of `w` by `h` has a number below `w * h`.
proof fn lemma_pixel_inside(w: int, h: int, x: int, y: int)
    requires
        0 <= x < w,
        0 <= y < h,
    ensures
        0 <= y * w + x < w * h,
{
    assert(0 <= y * w + x < w * h) by (nonlinear_arith)
        requires
            0 <= x < w,
            0 <= y < h,
    ;
}

/// Paints the square of side `side` at (`x0`, `y0`), as far as it lies in
/// the picture.
fn paint_square(buffer: &mut [u32], w: usize, h: usize, x0: usize, y0: usize, side: usize)
    requires
        w * h <= old(buffer).len(),
        x0 + side <= usize::MAX,
        y0 + side <= usize::MAX,
    ensures
        final(buffer).len() == old(buffer).len(),
        forall|k: int|
            0 <= k < old(buffer).len() ==> #[trigger] final(buffer)@[k] == if k < w * h
                && in_square(k % (w as int), k / (w as int), x0 as int, y0 as int, side as int) {
                TEXT_PIXEL
            } else {
                old(buffer)@[k]
            },
{
    let mut py: usize = 0;
    while py < side
        invariant
            py <= side,
            w * h <= buffer.len(),
            buffer.len() == old(buffer).len(),
            x0 + side <= usize::MAX,
            y0 + side <= usize::MAX,
            forall|k: int|
                0 <= k < buffer.len() ==> #[trigger] buffer@[k] == if k < w * h && square_before(
                    k % (w as int),
                    k / (w as int),
                    x0 as int,
                    y0 as int,
                    side as int,
                    py as int,
                    0,
                ) {
                    TEXT_PIXEL
                } else {
                    old(buffer)@[k]
                },
        decreases side - py,
    {
        let y = y0 + py;
        let mut px: usize = 0;
        while px < side
            invariant
                px <= side,
                py < side,
                y == y0 + py,
                w * h <= buffer.len(),
                buffer.len() == old(buffer).len(),
                x0 + side <= usize::MAX,
                y0 + side <= usize::MAX,
                forall|k: int|
                    0 <= k < buffer.len() ==> #[trigger] buffer@[k] == if k < w * h
                        && square_before(
                        k % (w as int),
                        k / (w as int),
                        x0 as int,
                        y0 as int,
                        side as int,
                        py as int,
                        px as int,
                    ) {
                        TEXT_PIXEL
                    } else {
                        old(buffer)@[k]
                    },
            decreases side - px,
        {
            let x = x0 + px;
            if x < w && y < h {
                proof {
                    lemma_pixel_inside(w as int, h as int, x as int, y as int);
                    lemma_pixel_number(w as int, x as int, y as int);
                }
                buffer[y * w + x] = TEXT_PIXEL;
            }
            proof {
                assert forall|k: int| 0 <= k < buffer.len() implies #[trigger] buffer@[k] == if k
                    < w * h && square_before(
                    k % (w as int),
                    k / (w as int),
                    x0 as int,
                    y0 as int,
                    side as int,
                    py as int,
                    px + 1,
                ) {
                    TEXT_PIXEL
                } else {
                    old(buffer)@[k]
                } by {
                    if k < w * h && w > 0 {
                        let kx = k % (w as int);
                        let ky = k / (w as int);
                        vstd::arithmetic::div_mod::lemma_fundamental_div_mod(k, w as int);
                        vstd::arithmetic::div_mod::lemma_mod_bound(k, w as int);
                        if kx == x && ky == y {
                            assert(k == y * w + x) by (nonlinear_arith)
                                requires
                                    k == w * ky + kx,
                                    kx == x,
                                    ky == y,
                            ;
                            lemma_row_inside(w as int, h as int, k);
                        }
                    }
                }
            }
            px += 1;
        }
        py += 1;
    }
}

/// A pixel number below `w * h` lies in a row below `h`.
proof fn lemma_row_inside(w: int, h: int, k: int)
    requires
        0 <= k < w * h,
        w > 0,
    ensures
        0 <= k / w < h,
        0 <= k % w < w,
{
    vstd::arithmetic::div_mod::lemma_fundamental_div_mod(k, w);
    vstd::arithmetic::div_mod::lemma_mod_bound(k, w);
    let q = k / w;
    assert(q < h) by (nonlinear_arith)
        requires
            w * q + k % w == k,
            0 <= k % w,
            k < w * h,
            w > 0,
    ;
    assert(q >= 0) by (nonlinear_arith)
        requires
            w * q + k % w == k,
            k % w < w,
            k >= 0,
            w > 0,
    ;
}

/// Columns from one character to the next: a glyph and one column of space.
pub const CHAR_STEP: usize = 5;

/// The glyph for a character: letters in either case, digits, and five
/// signs. Every other character, the space too, leaves its place empty.
pub open spec fn glyph_of(c: char) -> Option<int> {
    let u = c as u32;
    if 0x41 <= u <= 0x5A {
        Some(u - 0x41)
    } else if 0x61 <= u <= 0x7A {
        Some(u - 0x61)
    } else if 0x30 <= u <= 0x39 {
        Some(26 + u - 0x30)
    } else if c == ':' {
        Some(36)
    } else if c == '-' {
        Some(37)
    } else if c == '.' {
        Some(38)
    } else if c == '(' {
        Some(39)
    } else if c == ')' {
        Some(40)
    } else {
        None
    }
}

/// The weight of column `fx` in a row of a glyph: the leftmost column is the
/// highest of four bits.
pub open spec fn column_weight(fx: int) -> int {
    if fx == 0 {
        8
    } else if fx == 1 {
        4
    } else if fx == 2 {
        2
    } else {
        1
    }
}

/// Whether the glyph row `row` has a dot in column `fx`.
pub open spec fn dot_set(row: u8, fx: int) -> bool {
    (row as int / column_weight(fx)) % 2 == 1
}

/// Whether character `i` of `text` has a dot in row `fy` and column `fx` of
/// its glyph.
pub open spec fn cell_lit(text: Seq<char>, i: int, fy: int, fx: int) -> bool {
    &&& 0 <= i < text.len()
    &&& 0 <= fy < FONT_HEIGHT
    &&& 0 <= fx < FONT_WIDTH
    &&& glyph_of(text[i]) is Some
    &&& dot_set(FONT_DATA@[glyph_of(text[i])->0 * 6 + fy], fx)
}

/// The left edge of column `fx` of character `i`.
pub open spec fn cell_x(i: int, fx: int, scale: int, padding: int) -> int {
    padding + i * (CHAR_STEP * scale) + fx * scale
}

/// The top edge of row `fy`.
pub open spec fn cell_y(fy: int, scale: int, padding: int) -> int {
    padding + fy * scale
}

/// Whether the pixel (`x`, `y`) belongs to the text: it lies in the square
/// of some dot, each dot being a square of side `scale`.
pub open spec fn text_covers(text: Seq<char>, x: int, y: int, scale: int, padding: int) -> bool {
    exists|i: int, fy: int, fx: int|
        #[trigger] cell_lit(text, i, fy, fx) && in_square(
            x,
            y,
            cell_x(i, fx, scale, padding),
            cell_y(fy, scale, padding),
            scale,
        )
}

/// Whether the dot (`i2`, `fy2`, `fx2`) is drawn before the dot (`i`, `fy`,
/// `fx`): character by character, row by row, column by column.
spec fn drawn_before(i2: int, fy2: int, fx2: int, i: int, fy: int, fx: int) -> bool {
    i2 < i || (i2 == i && (fy2 < fy || (fy2 == fy && fx2 < fx)))
}

/// Whether the pixel (`x`, `y`) belongs to a dot drawn before (`i`, `fy`,
/// `fx`).
spec fn covered_before(
    text: Seq<char>,
    x: int,
    y: int,
    scale: int,
    padding: int,
    i: int,
    fy: int,
    fx: int,
) -> bool {
    exists|i2: int, fy2: int, fx2: int|
        #[trigger] cell_lit(text, i2, fy2, fx2) && drawn_before(i2, fy2, fx2, i, fy, fx)
            && in_square(
            x,
            y,
            cell_x(i2, fx2, scale, padding),
            cell_y(fy2, scale, padding),
            scale,
        )
}

/// Whether pixel number `k` of a picture `w` wide belongs to a dot drawn
/// before (`i`, `fy`, `fx`).
spec fn covered_at(
    text: Seq<char>,
    w: int,
    k: int,
    scale: int,
    padding: int,
    i: int,
    fy: int,
    fx: int,
) -> bool {
    covered_before(text, k % w, k / w, scale, padding, i, fy, fx)
}

/// Whether pixel number `k` of a picture `w` wide belongs to the text.
spec fn text_at(text: Seq<char>, w: int, k: int, scale: int, padding: int) -> bool {
    text_covers(text, k % w, k / w, scale, padding)
}

/// Drawing one more dot covers the pixels of that dot and no others.
proof fn lemma_next_column(
    text: Seq<char>,
    x: int,
    y: int,
    scale: int,
    padding: int,
    i: int,
    fy: int,
    fx: int,
)
    ensures
        covered_before(text, x, y, scale, padding, i, fy, fx + 1) == (covered_before(
            text,
            x,
            y,
            scale,
            padding,
            i,
            fy,
            fx,
        ) || (cell_lit(text, i, fy, fx) && in_square(
            x,
            y,
            cell_x(i, fx, scale, padding),
            cell_y(fy, scale, padding),
            scale,
        ))),
{
    if covered_before(text, x, y, scale, padding, i, fy, fx) {
        let (i2, fy2, fx2) = choose|i2: int, fy2: int, fx2: int|
            #[trigger] cell_lit(text, i2, fy2, fx2) && drawn_before(i2, fy2, fx2, i, fy, fx)
                && in_square(
                x,
                y,
                cell_x(i2, fx2, scale, padding),
                cell_y(fy2, scale, padding),
                scale,
            );
        assert(cell_lit(text, i2, fy2, fx2) && drawn_before(i2, fy2, fx2, i, fy, fx + 1));
    }
    if cell_lit(text, i, fy, fx) && in_square(
        x,
        y,
        cell_x(i, fx, scale, padding),
        cell_y(fy, scale, padding),
        scale,
    ) {
        assert(drawn_before(i, fy, fx, i, fy, fx + 1));
    }
}

/// The end of a row of a glyph is the start of its next row.
proof fn lemma_next_row(text: Seq<char>, x: int, y: int, scale: int, padding: int, i: int, fy: int)
    ensures
        covered_before(text, x, y, scale, padding, i, fy, FONT_WIDTH as int) == covered_before(
            text,
            x,
            y,
            scale,
            padding,
            i,
            fy + 1,
            0,
        ),
{
    if covered_before(text, x, y, scale, padding, i, fy, FONT_WIDTH as int) {
        let (i2, fy2, fx2) = choose|i2: int, fy2: int, fx2: int|
            #[trigger] cell_lit(text, i2, fy2, fx2) && drawn_before(
                i2,
                fy2,
                fx2,
                i,
                fy,
                FONT_WIDTH as int,
            ) && in_square(
                x,
                y,
                cell_x(i2, fx2, scale, padding),
                cell_y(fy2, scale, padding),
                scale,
            );
        assert(cell_lit(text, i2, fy2, fx2) && drawn_before(i2, fy2, fx2, i, fy + 1, 0));
    }
    if covered_before(text, x, y, scale, padding, i, fy + 1, 0) {
        let (i2, fy2, fx2) = choose|i2: int, fy2: int, fx2: int|
            #[trigger] cell_lit(text, i2, fy2, fx2) && drawn_before(i2, fy2, fx2, i, fy + 1, 0)
                && in_square(
                x,
                y,
                cell_x(i2, fx2, scale, padding),
                cell_y(fy2, scale, padding),
                scale,
            );
        assert(cell_lit(text, i2, fy2, fx2) && drawn_before(
            i2,
            fy2,
            fx2,
            i,
            fy,
            FONT_WIDTH as int,
        ));
    }
}

/// The end of a glyph, or a character without one, leads to the next
/// character.
proof fn lemma_next_char(
    text: Seq<char>,
    x: int,
    y: int,
    scale: int,
    padding: int,
    i: int,
    fy: int,
)
    requires
        fy == FONT_HEIGHT || (fy == 0 && 0 <= i < text.len() && glyph_of(text[i]) is None),
    ensures
        covered_before(text, x, y, scale, padding, i, fy, 0) == covered_before(
            text,
            x,
            y,
            scale,
            padding,
            i + 1,
            0,
            0,
        ),
{
    if covered_before(text, x, y, scale, padding, i, fy, 0) {
        let (i2, fy2, fx2) = choose|i2: int, fy2: int, fx2: int|
            #[trigger] cell_lit(text, i2, fy2, fx2) && drawn_before(i2, fy2, fx2, i, fy, 0)
                && in_square(
                x,
                y,
                cell_x(i2, fx2, scale, padding),
                cell_y(fy2, scale, padding),
                scale,
            );
        assert(cell_lit(text, i2, fy2, fx2) && drawn_before(i2, fy2, fx2, i + 1, 0, 0));
    }
    if covered_before(text, x, y, scale, padding, i + 1, 0, 0) {
        let (i2, fy2, fx2) = choose|i2: int, fy2: int, fx2: int|
            #[trigger] cell_lit(text, i2, fy2, fx2) && drawn_before(i2, fy2, fx2, i + 1, 0, 0)
                && in_square(
                x,
                y,
                cell_x(i2, fx2, scale, padding),
                cell_y(fy2, scale, padding),
                scale,
            );
        assert(cell_lit(text, i2, fy2, fx2) && drawn_before(i2, fy2, fx2, i, fy, 0));
    }
}

/// Before the first dot nothing is covered; after the last, what the text
/// covers.
proof fn lemma_whole_text(text: Seq<char>, x: int, y: int, scale: int, padding: int)
    ensures
        !covered_before(text, x, y, scale, padding, 0, 0, 0),
        covered_before(text, x, y, scale, padding, text.len() as int, 0, 0) == text_covers(
            text,
            x,
            y,
            scale,
            padding,
        ),
{
    if text_covers(text, x, y, scale, padding) {
        let (i2, fy2, fx2) = choose|i2: int, fy2: int, fx2: int|
            #[trigger] cell_lit(text, i2, fy2, fx2) && in_square(
                x,
                y,
                cell_x(i2, fx2, scale, padding),
                cell_y(fy2, scale, padding),
                scale,
            );
        assert(cell_lit(text, i2, fy2, fx2) && drawn_before(
            i2,
            fy2,
            fx2,
            text.len() as int,
            0,
            0,
        ));
    }
}

/// The glyph for a character, if it has one.
pub fn glyph_index(c: char) -> (g: Option<usize>)
    ensures
        g is Some == glyph_of(c) is Some,
        g matches Some(n) ==> n == glyph_of(c)->0 && n <= 40,
{
    let u = c as u32;
    if 0x41 <= u && u <= 0x5A {
        Some((u - 0x41) as usize)
    } else if 0x61 <= u && u <= 0x7A {
        Some((u - 0x61) as usize)
    } else if 0x30 <= u && u <= 0x39 {
        Some((26 + u - 0x30) as usize)
    } else if c == ':' {
        Some(36)
    } else if c == '-' {
        Some(37)
    } else if c == '.' {
        Some(38)
    } else if c == '(' {
        Some(39)
    } else if c == ')' {
        Some(40)
    } else {
        None
    }
}

/// Whether the glyph row `row` has a dot in column `fx`.
fn has_dot(row: u8, fx: usize) -> (b: bool)
    requires
        fx < FONT_WIDTH,
    ensures
        b == dot_set(row, fx as int),
{
    let weight: u8 = if fx == 0 {
        8
    } else if fx == 1 {
        4
    } else if fx == 2 {
        2
    } else {
        1
    };
    (row / weight) % 2 == 1
}

/// What [`draw_osd_buffer`] leaves at pixel number `k` of a picture that
/// held `before`.
pub open spec fn drawn_pixel(
    text: Seq<char>,
    w: int,
    h: int,
    scale: int,
    padding: int,
    k: int,
    before: u32,
) -> u32 {
    if k < w * h && text_covers(text, k % w, k / w, scale, padding) {
        TEXT_PIXEL
    } else {
        before
    }
}

/// Draws `text` into a picture of `window_w` by `window_h` pixels, its top
/// left corner `padding` pixels in from the corner of the picture, every dot
/// of the font a square of side `scale`.
///
/// The pixels of the text become [`TEXT_PIXEL`]; all others keep their
/// value. Text that reaches beyond the picture is cut off.
pub fn draw_osd_buffer(
    text: &str,
    buffer: &mut [u32],
    window_w: usize,
    window_h: usize,
    scale: usize,
    padding: usize,
)
    requires
        window_w * window_h <= old(buffer).len(),
        padding + text@.len() * (CHAR_STEP * scale) <= usize::MAX,
        padding + FONT_HEIGHT * scale <= usize::MAX,
    ensures
        final(buffer).len() == old(buffer).len(),
        forall|k: int|
            0 <= k < old(buffer).len() ==> #[trigger] final(buffer)@[k] == drawn_pixel(
                text@,
                window_w as int,
                window_h as int,
                scale as int,
                padding as int,
                k,
                old(buffer)@[k],
            ),
{
    let chars = chars_of(text);
    let ghost t = text@;
    let ghost w = window_w as int;
    let ghost h = window_h as int;
    let ghost s = scale as int;
    let ghost p = padding as int;
    proof {
        assert forall|k: int| 0 <= k < buffer.len() implies !covered_at(t, w, k,
            s,
            p,
            0,
            0,
            0,
        ) by {
            lemma_whole_text(t, k % w, k / w, s, p);
        }
    }
    let mut i: usize = 0;
    while i < chars.len()
        invariant
            i <= chars.len(),
            chars@ == t,
            t == text@,
            w == window_w,
            h == window_h,
            s == scale,
            p == padding,
            w * h <= buffer.len(),
            buffer.len() == old(buffer).len(),
            p + t.len() * (CHAR_STEP * s) <= usize::MAX,
            p + FONT_HEIGHT * s <= usize::MAX,
            forall|k: int|
                0 <= k < buffer.len() ==> #[trigger] buffer@[k] == if k < w * h && covered_at(t, w, k,
                    s,
                    p,
                    i as int,
                    0,
                    0,
                ) {
                    TEXT_PIXEL
                } else {
                    old(buffer)@[k]
                },
        decreases chars.len() - i,
    {
        match glyph_index(chars[i]) {
            None => {
                proof {
                    assert forall|k: int| 0 <= k < buffer.len() implies covered_at(t, w, k,
                        s,
                        p,
                        i as int,
                        0,
                        0,
                    ) == covered_at(t, w, k, s, p, i + 1, 0, 0) by {
                        lemma_next_char(t, k % w, k / w, s, p, i as int, 0);
                    }
                }
            },
            Some(glyph) => {
                proof {
                    assert(i * (CHAR_STEP * s) + CHAR_STEP * s <= t.len() * (CHAR_STEP * s))
                        by (nonlinear_arith)
                        requires
                            0 <= i < t.len(),
                            s >= 0,
                    ;
                    assert(0 <= i * (CHAR_STEP * s)) by (nonlinear_arith)
                        requires
                            0 <= i,
                            s >= 0,
                    ;
                }
                let char_x: usize = padding + i * (CHAR_STEP * scale);
                let mut fy: usize = 0;
                while fy < FONT_HEIGHT
                    invariant
                        fy <= FONT_HEIGHT,
                        i < chars.len(),
                        chars@ == t,
                        glyph_of(t[i as int]) == Some(glyph as int),
                        glyph <= 40,
                        w == window_w,
                        h == window_h,
                        s == scale,
                        p == padding,
                        char_x == p + i * (CHAR_STEP * s),
                        char_x + CHAR_STEP * s <= usize::MAX,
                        w * h <= buffer.len(),
                        buffer.len() == old(buffer).len(),
                        p + FONT_HEIGHT * s <= usize::MAX,
                        forall|k: int|
                            0 <= k < buffer.len() ==> #[trigger] buffer@[k] == if k < w * h
                                && covered_at(t, w, k, s, p, i as int, fy as int, 0) {
                                TEXT_PIXEL
                            } else {
                                old(buffer)@[k]
                            },
                    decreases FONT_HEIGHT - fy,
                {
                    let row = FONT_DATA[glyph * 6 + fy];
                    proof {
                        assert(fy * s + s <= FONT_HEIGHT * s) by (nonlinear_arith)
                            requires
                                0 <= fy < FONT_HEIGHT,
                                s >= 0,
                        ;
                        assert(0 <= fy * s) by (nonlinear_arith)
                            requires
                                0 <= fy,
                                s >= 0,
                        ;
                    }
                    let y0: usize = padding + fy * scale;
                    let mut fx: usize = 0;
                    while fx < FONT_WIDTH
                        invariant
                            fx <= FONT_WIDTH,
                            fy < FONT_HEIGHT,
                            i < chars.len(),
                            chars@ == t,
                            glyph_of(t[i as int]) == Some(glyph as int),
                            row == FONT_DATA@[glyph * 6 + fy],
                            w == window_w,
                            h == window_h,
                            s == scale,
                            p == padding,
                            char_x == p + i * (CHAR_STEP * s),
                            char_x + CHAR_STEP * s <= usize::MAX,
                            y0 == p + fy * s,
                            y0 + s <= usize::MAX,
                            w * h <= buffer.len(),
                            buffer.len() == old(buffer).len(),
                            forall|k: int|
                                0 <= k < buffer.len() ==> #[trigger] buffer@[k] == if k < w * h
                                    && covered_at(t, w, k,
                                    s,
                                    p,
                                    i as int,
                                    fy as int,
                                    fx as int,
                                ) {
                                    TEXT_PIXEL
                                } else {
                                    old(buffer)@[k]
                                },
                        decreases FONT_WIDTH - fx,
                    {
                        let ghost shown = buffer@;
                        let lit = has_dot(row, fx);
                        proof {
                            assert(fx * s + s <= CHAR_STEP * s) by (nonlinear_arith)
                                requires
                                    0 <= fx < FONT_WIDTH,
                                    s >= 0,
                            ;
                            assert(0 <= fx * s) by (nonlinear_arith)
                                requires
                                    0 <= fx,
                                    s >= 0,
                            ;
                        }
                        let x0: usize = char_x + fx * scale;
                        if lit {
                            paint_square(buffer, window_w, window_h, x0, y0, scale);
                        }
                        proof {
                            assert(lit == cell_lit(t, i as int, fy as int, fx as int));
                            assert(x0 == cell_x(i as int, fx as int, s, p));
                            assert(y0 == cell_y(fy as int, s, p));
                            assert forall|k: int| 0 <= k < buffer.len() implies #[trigger] buffer@[k]
                                == if k < w * h && covered_at(t, w, k,
                                s,
                                p,
                                i as int,
                                fy as int,
                                fx + 1,
                            ) {
                                TEXT_PIXEL
                            } else {
                                old(buffer)@[k]
                            } by {
                                lemma_next_column(
                                    t,
                                    k % w,
                                    k / w,
                                    s,
                                    p,
                                    i as int,
                                    fy as int,
                                    fx as int,
                                );
                                assert(shown[k] == if k < w * h && covered_at(t, w, k,
                                    s,
                                    p,
                                    i as int,
                                    fy as int,
                                    fx as int,
                                ) {
                                    TEXT_PIXEL
                                } else {
                                    old(buffer)@[k]
                                });
                            }
                        }
                        fx += 1;
                    }
                    proof {
                        assert forall|k: int| 0 <= k < buffer.len() implies covered_at(t, w, k,
                            s,
                            p,
                            i as int,
                            fy as int,
                            FONT_WIDTH as int,
                        ) == covered_at(t, w, k, s, p, i as int, fy + 1, 0) by {
                            lemma_next_row(t, k % w, k / w, s, p, i as int, fy as int);
                        }
                    }
                    fy += 1;
                }
                proof {
                    assert forall|k: int| 0 <= k < buffer.len() implies covered_at(t, w, k,
                        s,
                        p,
                        i as int,
                        FONT_HEIGHT as int,
                        0,
                    ) == covered_at(t, w, k, s, p, i + 1, 0, 0) by {
                        lemma_next_char(t, k % w, k / w, s, p, i as int, FONT_HEIGHT as int);
                    }
                }
            },
        }
        i += 1;
    }
    proof {
        assert forall|k: int| 0 <= k < buffer.len() implies covered_at(t, w, k,
            s,
            p,
            t.len() as int,
            0,
            0,
        ) == text_at(t, w, k, s, p) by {
            lemma_whole_text(t, k % w, k / w, s, p);
        }
    }
}

/// Colour channel `n` of a pixel: 0 is blue, 1 green, 2 red.
pub open spec fn channel_of(pixel: u32, n: int) -> int {
    if n == 0 {
        pixel as int % 256
    } else if n == 1 {
        pixel as int / 256 % 256
    } else {
        pixel as int / 65536 % 256
    }
}

/// The pixel at half its brightness, and opaque.
pub open spec fn darkened(pixel: u32) -> u32 {
    (0xFF00_0000 + 65536 * (channel_of(pixel, 2) / 2) + 256 * (channel_of(pixel, 1) / 2)
        + channel_of(pixel, 0) / 2) as u32
}

/// Halves every colour channel of a pixel and makes it opaque.
pub fn darken(pixel: u32) -> (dark: u32)
    ensures
        dark == darkened(pixel),
{
    let b = (pixel & 0xFF) >> 1;
    let g = ((pixel >> 8) & 0xFF) >> 1;
    let r = ((pixel >> 16) & 0xFF) >> 1;
    let dark = b | (g << 8) | (r << 16) | 0xFF000000;
    assert(dark == 0xFF00_0000u32 + 65536 * ((pixel / 65536 % 256) / 2) + 256 * ((pixel / 256 % 256)
        / 2) + (pixel % 256) / 2) by (bit_vector)
        requires
            dark == ((pixel & 0xFF) >> 1) | ((((pixel >> 8) & 0xFF) >> 1) << 8) | ((((pixel >> 16)
                & 0xFF) >> 1) << 16) | 0xFF000000u32,
    ;
    dark
}

/// The width and the height of the box that a message of `chars` characters
/// takes, with dots of side `scale` and `padding` pixels round the text.
pub fn osd_size(chars: usize, scale: usize, padding: usize) -> (size: (usize, usize))
    requires
        chars * (CHAR_STEP * scale) + 2 * padding <= usize::MAX,
        FONT_HEIGHT * scale + 2 * padding <= usize::MAX,
    ensures
        size.0 == chars * (CHAR_STEP * scale) + 2 * padding,
        size.1 == FONT_HEIGHT * scale + 2 * padding,
{
    proof {
        assert(CHAR_STEP * scale <= usize::MAX) by (nonlinear_arith)
            requires
                FONT_HEIGHT * scale + 2 * padding <= usize::MAX,
                scale >= 0,
                padding >= 0,
        ;
    }
    (chars * (CHAR_STEP * scale) + 2 * padding, FONT_HEIGHT * scale + 2 * padding)
}

/// Width of the whole picture, border and screen.
pub const PICTURE_WIDTH: usize = 320;

/// Height of the whole picture.
pub const PICTURE_HEIGHT: usize = 240;

/// Width of the screen inside the picture.
pub const SCREEN_WIDTH: usize = 256;

/// Height of the screen inside the picture.
pub const SCREEN_HEIGHT: usize = 192;

/// Where the screen starts in the picture, from the left.
pub const SCREEN_X: usize = 32;

/// Where the screen starts in the picture, from the top.
pub const SCREEN_Y: usize = 24;

/// How far the message box lies in from the corner of what is shown, both
/// ways.
pub const OSD_OFFSET: usize = 8;

/// The pixel of the picture at (`gx`, `gy`): from the screen where the
/// screen is, from the border round it.
pub open spec fn picture_pixel(screen: Seq<u32>, border: Seq<u32>, gx: int, gy: int) -> u32 {
    if SCREEN_X <= gx < SCREEN_X + SCREEN_WIDTH && SCREEN_Y <= gy < SCREEN_Y + SCREEN_HEIGHT {
        screen[(gy - SCREEN_Y) * SCREEN_WIDTH + (gx - SCREEN_X)]
    } else {
        border[gy * PICTURE_WIDTH + gx]
    }
}

/// The pixel behind the message box at (`x`, `y`) of the box: the picture
/// there, darkened; nothing where the box reaches beyond the picture.
pub open spec fn backdrop_pixel(
    screen: Seq<u32>,
    border: Seq<u32>,
    x_offset: int,
    y_offset: int,
    x: int,
    y: int,
) -> u32 {
    let gx = x_offset + OSD_OFFSET + x;
    let gy = y_offset + OSD_OFFSET + y;
    if gx < PICTURE_WIDTH && gy < PICTURE_HEIGHT {
        darkened(picture_pixel(screen, border, gx, gy))
    } else {
        0
    }
}

/// Pixel number `k` of the backdrop of a box `width` wide.
pub open spec fn backdrop_at(
    screen: Seq<u32>,
    border: Seq<u32>,
    x_offset: int,
    y_offset: int,
    width: int,
    k: int,
) -> u32 {
    backdrop_pixel(screen, border, x_offset, y_offset, k % width, k / width)
}

/// Makes the backdrop of a message box of `width` by `height` pixels: what
/// the picture shows behind the box, at half its brightness.
///
/// `x_offset` and `y_offset` say where the shown part of the picture starts.
pub fn osd_backdrop(
    screen: &[u32],
    border: &[u32],
    x_offset: usize,
    y_offset: usize,
    width: usize,
    height: usize,
) -> (out: Vec<u32>)
    requires
        screen@.len() >= SCREEN_WIDTH * SCREEN_HEIGHT,
        border@.len() >= PICTURE_WIDTH * PICTURE_HEIGHT,
        width * height <= usize::MAX,
        x_offset + OSD_OFFSET + width <= usize::MAX,
        y_offset + OSD_OFFSET + height <= usize::MAX,
    ensures
        out.len() == width * height,
        forall|k: int|
            0 <= k < out.len() ==> #[trigger] out@[k] == backdrop_at(
                screen@,
                border@,
                x_offset as int,
                y_offset as int,
                width as int,
                k,
            ),
{
    let mut out: Vec<u32> = Vec::new();
    let mut y: usize = 0;
    while y < height
        invariant
            y <= height,
            out.len() == y * width,
            screen@.len() >= SCREEN_WIDTH * SCREEN_HEIGHT,
            border@.len() >= PICTURE_WIDTH * PICTURE_HEIGHT,
            width * height <= usize::MAX,
            x_offset + OSD_OFFSET + width <= usize::MAX,
            y_offset + OSD_OFFSET + height <= usize::MAX,
            forall|k: int|
                0 <= k < out.len() ==> #[trigger] out@[k] == backdrop_at(
                    screen@,
                    border@,
                    x_offset as int,
                    y_offset as int,
                    width as int,
                    k,
                ),
        decreases height - y,
    {
        let gy = y_offset + OSD_OFFSET + y;
        let mut x: usize = 0;
        while x < width
            invariant
                x <= width,
                y < height,
                gy == y_offset + OSD_OFFSET + y,
                out.len() == y * width + x,
                screen@.len() >= SCREEN_WIDTH * SCREEN_HEIGHT,
                border@.len() >= PICTURE_WIDTH * PICTURE_HEIGHT,
                width * height <= usize::MAX,
                x_offset + OSD_OFFSET + width <= usize::MAX,
                forall|k: int|
                    0 <= k < out.len() ==> #[trigger] out@[k] == backdrop_at(
                        screen@,
                        border@,
                        x_offset as int,
                        y_offset as int,
                        width as int,
                        k,
                    ),
            decreases width - x,
        {
            let gx = x_offset + OSD_OFFSET + x;
            let pixel = if gx < PICTURE_WIDTH && gy < PICTURE_HEIGHT {
                let behind = if SCREEN_X <= gx && gx < SCREEN_X + SCREEN_WIDTH && SCREEN_Y <= gy
                    && gy < SCREEN_Y + SCREEN_HEIGHT {
                    screen[(gy - SCREEN_Y) * SCREEN_WIDTH + (gx - SCREEN_X)]
                } else {
                    border[gy * PICTURE_WIDTH + gx]
                };
                darken(behind)
            } else {
                0
            };
            proof {
                lemma_pixel_number(width as int, x as int, y as int);
            }
            out.push(pixel);
            x += 1;
        }
        proof {
            assert(y * width + width == (y + 1) * width) by (nonlinear_arith);
        }
        y += 1;
    }
    proof {
        assert(height * width == width * height) by (nonlinear_arith);
    }
    out
}

} // verus!
