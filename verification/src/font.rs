//! A 5x7 bitmap font, scaled by whole pixels, for the text on screen.
use vstd::prelude::*;
use crate::canvas::{Shape, draw_shape, lemma_paint_ext, paint, shape_layer};

verus! {

/// The bitmap of a character: seven rows, top first; in each row, bit `4 - col` is
/// set when column `col` (0 is the left one) is lit. Letters are found regardless
/// of case; a character the font does not cover is blank.
pub open spec fn spec_glyph(c: char) -> [u8; 7] {
    match c {
        'A' | 'a' => [0b01110u8, 0b10001, 0b10001, 0b11111, 0b10001, 0b10001, 0b10001],
        'C' | 'c' => [0b01111u8, 0b10000, 0b10000, 0b10000, 0b10000, 0b10000, 0b01111],
        'D' | 'd' => [0b11110u8, 0b10001, 0b10001, 0b10001, 0b10001, 0b10001, 0b11110],
        'E' | 'e' => [0b11111u8, 0b10000, 0b10000, 0b11110, 0b10000, 0b10000, 0b11111],
        'F' | 'f' => [0b11111u8, 0b10000, 0b10000, 0b11110, 0b10000, 0b10000, 0b10000],
        'G' | 'g' => [0b01111u8, 0b10000, 0b10000, 0b10111, 0b10001, 0b10001, 0b01111],
        'I' | 'i' => [0b11111u8, 0b00100, 0b00100, 0b00100, 0b00100, 0b00100, 0b11111],
        'J' | 'j' => [0b00111u8, 0b00010, 0b00010, 0b00010, 0b00010, 0b10010, 0b01100],
        'L' | 'l' => [0b10000u8, 0b10000, 0b10000, 0b10000, 0b10000, 0b10000, 0b11111],
        'M' | 'm' => [0b10001u8, 0b11011, 0b10101, 0b10001, 0b10001, 0b10001, 0b10001],
        'N' | 'n' => [0b10001u8, 0b11001, 0b10101, 0b10011, 0b10001, 0b10001, 0b10001],
        'O' | 'o' => [0b01110u8, 0b10001, 0b10001, 0b10001, 0b10001, 0b10001, 0b01110],
        'P' | 'p' => [0b11110u8, 0b10001, 0b10001, 0b11110, 0b10000, 0b10000, 0b10000],
        'R' | 'r' => [0b11110u8, 0b10001, 0b10001, 0b11110, 0b10100, 0b10010, 0b10001],
        'S' | 's' => [0b01111u8, 0b10000, 0b10000, 0b01110, 0b00001, 0b00001, 0b11110],
        'T' | 't' => [0b11111u8, 0b00100, 0b00100, 0b00100, 0b00100, 0b00100, 0b00100],
        'U' | 'u' => [0b10001u8, 0b10001, 0b10001, 0b10001, 0b10001, 0b10001, 0b01110],
        'V' | 'v' => [0b10001u8, 0b10001, 0b10001, 0b10001, 0b10001, 0b01010, 0b00100],
        'W' | 'w' => [0b10001u8, 0b10001, 0b10001, 0b10101, 0b10101, 0b11011, 0b10001],
        'Y' | 'y' => [0b10001u8, 0b10001, 0b01010, 0b00100, 0b00100, 0b00100, 0b00100],
        '0' => [0b01110u8, 0b10001, 0b10011, 0b10101, 0b11001, 0b10001, 0b01110],
        '1' => [0b00100u8, 0b01100, 0b00100, 0b00100, 0b00100, 0b00100, 0b01110],
        '2' => [0b01110u8, 0b10001, 0b00001, 0b00010, 0b00100, 0b01000, 0b11111],
        '3' => [0b11110u8, 0b00001, 0b00001, 0b00110, 0b00001, 0b00001, 0b11110],
        '4' => [0b00010u8, 0b00110, 0b01010, 0b10010, 0b11111, 0b00010, 0b00010],
        '5' => [0b11111u8, 0b10000, 0b11110, 0b00001, 0b00001, 0b10001, 0b01110],
        '6' => [0b01110u8, 0b10000, 0b10000, 0b11110, 0b10001, 0b10001, 0b01110],
        '7' => [0b11111u8, 0b00001, 0b00010, 0b00100, 0b01000, 0b01000, 0b01000],
        '8' => [0b01110u8, 0b10001, 0b10001, 0b01110, 0b10001, 0b10001, 0b01110],
        '9' => [0b01110u8, 0b10001, 0b10001, 0b01111, 0b00001, 0b00001, 0b01110],
        ':' => [0b00000u8, 0b00100, 0b00000, 0b00000, 0b00100, 0b00000, 0b00000],
        '+' => [0b00000u8, 0b00100, 0b00100, 0b11111, 0b00100, 0b00100, 0b00000],
        '-' => [0b00000u8, 0b00000, 0b00000, 0b11111, 0b00000, 0b00000, 0b00000],
        _ => [0b00000u8, 0b00000, 0b00000, 0b00000, 0b00000, 0b00000, 0b00000],
    }
}

/// The bitmap of `c` (see `spec_glyph`).
fn glyph(c: char) -> (rows: [u8; 7])
    ensures
        rows == spec_glyph(c),
{
    match c {
        'A' | 'a' => [0b01110u8, 0b10001, 0b10001, 0b11111, 0b10001, 0b10001, 0b10001],
        'C' | 'c' => [0b01111u8, 0b10000, 0b10000, 0b10000, 0b10000, 0b10000, 0b01111],
        'D' | 'd' => [0b11110u8, 0b10001, 0b10001, 0b10001, 0b10001, 0b10001, 0b11110],
        'E' | 'e' => [0b11111u8, 0b10000, 0b10000, 0b11110, 0b10000, 0b10000, 0b11111],
        'F' | 'f' => [0b11111u8, 0b10000, 0b10000, 0b11110, 0b10000, 0b10000, 0b10000],
        'G' | 'g' => [0b01111u8, 0b10000, 0b10000, 0b10111, 0b10001, 0b10001, 0b01111],
        'I' | 'i' => [0b11111u8, 0b00100, 0b00100, 0b00100, 0b00100, 0b00100, 0b11111],
        'J' | 'j' => [0b00111u8, 0b00010, 0b00010, 0b00010, 0b00010, 0b10010, 0b01100],
        'L' | 'l' => [0b10000u8, 0b10000, 0b10000, 0b10000, 0b10000, 0b10000, 0b11111],
        'M' | 'm' => [0b10001u8, 0b11011, 0b10101, 0b10001, 0b10001, 0b10001, 0b10001],
        'N' | 'n' => [0b10001u8, 0b11001, 0b10101, 0b10011, 0b10001, 0b10001, 0b10001],
        'O' | 'o' => [0b01110u8, 0b10001, 0b10001, 0b10001, 0b10001, 0b10001, 0b01110],
        'P' | 'p' => [0b11110u8, 0b10001, 0b10001, 0b11110, 0b10000, 0b10000, 0b10000],
        'R' | 'r' => [0b11110u8, 0b10001, 0b10001, 0b11110, 0b10100, 0b10010, 0b10001],
        'S' | 's' => [0b01111u8, 0b10000, 0b10000, 0b01110, 0b00001, 0b00001, 0b11110],
        'T' | 't' => [0b11111u8, 0b00100, 0b00100, 0b00100, 0b00100, 0b00100, 0b00100],
        'U' | 'u' => [0b10001u8, 0b10001, 0b10001, 0b10001, 0b10001, 0b10001, 0b01110],
        'V' | 'v' => [0b10001u8, 0b10001, 0b10001, 0b10001, 0b10001, 0b01010, 0b00100],
        'W' | 'w' => [0b10001u8, 0b10001, 0b10001, 0b10101, 0b10101, 0b11011, 0b10001],
        'Y' | 'y' => [0b10001u8, 0b10001, 0b01010, 0b00100, 0b00100, 0b00100, 0b00100],
        '0' => [0b01110u8, 0b10001, 0b10011, 0b10101, 0b11001, 0b10001, 0b01110],
        '1' => [0b00100u8, 0b01100, 0b00100, 0b00100, 0b00100, 0b00100, 0b01110],
        '2' => [0b01110u8, 0b10001, 0b00001, 0b00010, 0b00100, 0b01000, 0b11111],
        '3' => [0b11110u8, 0b00001, 0b00001, 0b00110, 0b00001, 0b00001, 0b11110],
        '4' => [0b00010u8, 0b00110, 0b01010, 0b10010, 0b11111, 0b00010, 0b00010],
        '5' => [0b11111u8, 0b10000, 0b11110, 0b00001, 0b00001, 0b10001, 0b01110],
        '6' => [0b01110u8, 0b10000, 0b10000, 0b11110, 0b10001, 0b10001, 0b01110],
        '7' => [0b11111u8, 0b00001, 0b00010, 0b00100, 0b01000, 0b01000, 0b01000],
        '8' => [0b01110u8, 0b10001, 0b10001, 0b01110, 0b10001, 0b10001, 0b01110],
        '9' => [0b01110u8, 0b10001, 0b10001, 0b01111, 0b00001, 0b00001, 0b01110],
        ':' => [0b00000u8, 0b00100, 0b00000, 0b00000, 0b00100, 0b00000, 0b00000],
        '+' => [0b00000u8, 0b00100, 0b00100, 0b11111, 0b00100, 0b00100, 0b00000],
        '-' => [0b00000u8, 0b00000, 0b00000, 0b11111, 0b00000, 0b00000, 0b00000],
        _ => [0b00000u8, 0b00000, 0b00000, 0b00000, 0b00000, 0b00000, 0b00000],
    }
}

/// Whether the font lights row `row`, column `col` of character `c`.
pub open spec fn glyph_on(c: char, row: int, col: int) -> bool {
    (spec_glyph(c)@[row] >> ((4 - col) as u8)) & 1u8 == 1u8
}

/// `c` with an ASCII lower-case letter turned into its upper-case form.
pub open spec fn ascii_upper(c: char) -> char {
    if 'a' <= c <= 'z' {
        ((c as u32) - 32) as char
    } else {
        c
    }
}

/// Whether the font lights at least one pixel of `c`.
pub open spec fn has_lit_pixel(c: char) -> bool {
    exists|row: int, col: int| 0 <= row < 7 && 0 <= col < 5 && glyph_on(c, row, col)
}

/// Every glyph is a 5x7 grid: seven rows, each below 32, so that only the five
/// columns `0..5` can be lit; and letters are looked up regardless of case.
pub proof fn lemma_glyph_shape(c: char)
    ensures
        forall|r: int| 0 <= r < 7 ==> #[trigger] spec_glyph(c)@[r] < 32,
        spec_glyph(c) == spec_glyph(ascii_upper(c)),
{
}

/// A character whose glyph has a non-zero row has a lit pixel.
proof fn lemma_lit_from_row(c: char, r: int)
    requires
        0 <= r < 7,
        spec_glyph(c)@[r] != 0,
    ensures
        has_lit_pixel(c),
{
    lemma_glyph_shape(c);
    let v = spec_glyph(c)@[r];
    assert((v >> 4u8) & 1u8 == 1u8 || (v >> 3u8) & 1u8 == 1u8 || (v >> 2u8) & 1u8 == 1u8 || (v
        >> 1u8) & 1u8 == 1u8 || (v >> 0u8) & 1u8 == 1u8) by (bit_vector)
        requires
            0 < v < 32,
    ;
    if (v >> 4u8) & 1u8 == 1u8 {
        assert(glyph_on(c, r, 0));
    } else if (v >> 3u8) & 1u8 == 1u8 {
        assert(glyph_on(c, r, 1));
    } else if (v >> 2u8) & 1u8 == 1u8 {
        assert(glyph_on(c, r, 2));
    } else if (v >> 1u8) & 1u8 == 1u8 {
        assert(glyph_on(c, r, 3));
    } else {
        assert(glyph_on(c, r, 4));
    }
}

/// Every character the font covers (upper- or lower-case letters A, C, D, E, F, G, I,
/// J, L, M, N, O, P, R, S, T, U, V, W, Y, the digits, `:`, `+` and `-`) lights at
/// least one pixel.
pub proof fn lemma_covered_chars_visible(c: char)
    requires
        spec_glyph(ascii_upper(c)) != spec_glyph(' '),
    ensures
        has_lit_pixel(c),
{
    lemma_glyph_shape(c);
    if spec_glyph(c)@[0] != 0 {
        lemma_lit_from_row(c, 0);
    } else if spec_glyph(c)@[1] != 0 {
        lemma_lit_from_row(c, 1);
    } else if spec_glyph(c)@[2] != 0 {
        lemma_lit_from_row(c, 2);
    } else if spec_glyph(c)@[3] != 0 {
        lemma_lit_from_row(c, 3);
    } else if spec_glyph(c)@[4] != 0 {
        lemma_lit_from_row(c, 4);
    } else if spec_glyph(c)@[5] != 0 {
        lemma_lit_from_row(c, 5);
    } else if spec_glyph(c)@[6] != 0 {
        lemma_lit_from_row(c, 6);
    } else {
        assert(spec_glyph(c) =~= spec_glyph(' '));
    }
}

/// Whether every character of `text` other than a space lights at least one pixel.
pub open spec fn all_visible(text: Seq<char>) -> bool {
    forall|i: int| 0 <= i < text.len() && text[i] != ' ' ==> #[trigger] has_lit_pixel(text[i])
}

/// Every character of `text` other than a space is one the font covers.
proof fn lemma_text_visible(text: Seq<char>)
    requires
        forall|i: int|
            0 <= i < text.len() && text[i] != ' ' ==> spec_glyph(ascii_upper(#[trigger] text[i]))
                != spec_glyph(' '),
    ensures
        all_visible(text),
{
    assert forall|i: int| 0 <= i < text.len() && text[i] != ' ' implies #[trigger] has_lit_pixel(
        text[i],
    ) by {
        lemma_covered_chars_visible(text[i]);
    }
}

/// Every text the screens and the heads-up display write is visible: each of its
/// characters but the spaces, and every digit, lights at least one pixel.
pub proof fn lemma_screen_texts_visible()
    ensures
        all_visible("RAYCASTER PSICODELICO"@),
        all_visible("WASD Y MOUSE PARA MOVERTE"@),
        all_visible("ENTER PARA JUGAR"@),
        all_visible("PULSA ENTER"@),
        all_visible("NIVEL COMPLETADO"@),
        all_visible("IMPACTOS EN LA DIANA: "@),
        all_visible("PULSA R PARA REINICIAR"@),
        all_visible("FPS: "@),
        all_visible("IMPACTOS: "@),
        all_visible("MUNDO INVERTIDO"@),
        all_visible("0123456789-"@),
{
    reveal_strlit("RAYCASTER PSICODELICO");
    reveal_strlit("WASD Y MOUSE PARA MOVERTE");
    reveal_strlit("ENTER PARA JUGAR");
    reveal_strlit("PULSA ENTER");
    reveal_strlit("NIVEL COMPLETADO");
    reveal_strlit("IMPACTOS EN LA DIANA: ");
    reveal_strlit("PULSA R PARA REINICIAR");
    reveal_strlit("FPS: ");
    reveal_strlit("IMPACTOS: ");
    reveal_strlit("MUNDO INVERTIDO");
    reveal_strlit("0123456789-");
    lemma_text_visible("RAYCASTER PSICODELICO"@);
    lemma_text_visible("WASD Y MOUSE PARA MOVERTE"@);
    lemma_text_visible("ENTER PARA JUGAR"@);
    lemma_text_visible("PULSA ENTER"@);
    lemma_text_visible("NIVEL COMPLETADO"@);
    lemma_text_visible("IMPACTOS EN LA DIANA: "@);
    lemma_text_visible("PULSA R PARA REINICIAR"@);
    lemma_text_visible("FPS: "@);
    lemma_text_visible("IMPACTOS: "@);
    lemma_text_visible("MUNDO INVERTIDO"@);
    lemma_text_visible("0123456789-"@);
}

/// The picture of `text` written from `(x0, y0)` at `scale` screen pixels per font
/// pixel: character `k` takes the cell of width `6 * scale` that starts at
/// `x0 + 6 * scale * k`, its five columns on the left and a blank column on the right,
/// and seven rows of height `scale`. A scale below 1 draws nothing.
pub open spec fn text_layer(text: Seq<char>, x0: int, y0: int, scale: int, color: u32) -> spec_fn(
    int,
    int,
) -> Option<u32> {
    |px: int, py: int|
        {
            let dx = px - x0;
            let dy = py - y0;
            if scale > 0 && 0 <= dx && 0 <= dy && dx / (6 * scale) < text.len() && (dx % (6
                * scale)) / scale < 5 && dy / scale < 7 && glyph_on(
                text[dx / (6 * scale)],
                dy / scale,
                (dx % (6 * scale)) / scale,
            ) {
                Some(color)
            } else {
                None
            }
        }
}

/// The width in screen pixels that `n` characters take at `scale`.
pub open spec fn spec_text_width(n: int, scale: int) -> int {
    6 * scale * n
}

/// Each font pixel of character `k` is a `scale` x `scale` block: the block of row
/// `row`, column `col` starts at `(x0 + 6 * scale * k + scale * col, y0 + scale * row)`
/// and is lit exactly when the glyph lights that pixel; the sixth column of each
/// cell stays blank.
pub proof fn lemma_text_block(
    text: Seq<char>,
    x0: int,
    y0: int,
    scale: int,
    color: u32,
    k: int,
    row: int,
    col: int,
    sx: int,
    sy: int,
)
    requires
        scale > 0,
        0 <= k < text.len(),
        0 <= row < 7,
        0 <= col < 6,
        0 <= sx < scale,
        0 <= sy < scale,
    ensures
        text_layer(text, x0, y0, scale, color)(
            x0 + 6 * scale * k + scale * col + sx,
            y0 + scale * row + sy,
        ) == if col < 5 && glyph_on(text[k], row, col) {
            Some(color)
        } else {
            None
        },
{
    let dx = 6 * scale * k + scale * col + sx;
    let dy = scale * row + sy;
    assert(0 <= scale * col + sx < 6 * scale) by (nonlinear_arith)
        requires
            scale > 0,
            0 <= col < 6,
            0 <= sx < scale,
    ;
    assert(dx == k * (6 * scale) + (scale * col + sx)) by (nonlinear_arith)
        requires
            dx == 6 * scale * k + scale * col + sx,
    ;
    vstd::arithmetic::div_mod::lemma_fundamental_div_mod_converse(dx, 6 * scale, k, scale * col + sx);
    assert(scale * col + sx == col * scale + sx) by (nonlinear_arith);
    vstd::arithmetic::div_mod::lemma_fundamental_div_mod_converse(scale * col + sx, scale, col, sx);
    assert(dy == row * scale + sy) by (nonlinear_arith)
        requires
            dy == scale * row + sy,
    ;
    vstd::arithmetic::div_mod::lemma_fundamental_div_mod_converse(dy, scale, row, sy);
    assert(0 <= dx) by (nonlinear_arith)
        requires
            dx == 6 * scale * k + scale * col + sx,
            scale > 0,
            k >= 0,
            col >= 0,
            sx >= 0,
    ;
    assert(0 <= dy) by (nonlinear_arith)
        requires
            dy == scale * row + sy,
            scale > 0,
            row >= 0,
            sy >= 0,
    ;
}

/// Text paints nothing left of `x0`, above `y0`, from `x0 + spec_text_width(len, scale)`
/// on to the right, or from `y0 + 7 * scale` down: `text_width` is the width it covers.
pub proof fn lemma_text_extent(text: Seq<char>, x0: int, y0: int, scale: int, color: u32, x: int, y: int)
    requires
        x < x0 || y < y0 || x >= x0 + spec_text_width(text.len() as int, scale) || y >= y0 + 7
            * scale,
    ensures
        text_layer(text, x0, y0, scale, color)(x, y) is None,
{
    let s = scale;
    let n = text.len() as int;
    let dx = x - x0;
    let dy = y - y0;
    if s > 0 && 0 <= dx && 0 <= dy {
        if dx >= 6 * s * n {
            vstd::arithmetic::div_mod::lemma_fundamental_div_mod(dx, 6 * s);
            vstd::arithmetic::div_mod::lemma_mod_pos_bound(dx, 6 * s);
            let q = dx / (6 * s);
            if q < n {
                assert((6 * s) * q + dx % (6 * s) < 6 * s * n) by (nonlinear_arith)
                    requires
                        q < n,
                        s > 0,
                        dx % (6 * s) < 6 * s,
                ;
            }
        } else {
            vstd::arithmetic::div_mod::lemma_fundamental_div_mod(dy, s);
            vstd::arithmetic::div_mod::lemma_mod_pos_bound(dy, s);
            let q = dy / s;
            if q < 7 {
                assert(s * q + dy % s < 7 * s) by (nonlinear_arith)
                    requires
                        q < 7,
                        s > 0,
                        dy % s < s,
                ;
            }
        }
    }
}

/// A line of text ready to be drawn.
pub struct Text {
    pub chars: Vec<char>,
    pub x0: i32,
    pub y0: i32,
    pub scale: i32,
    pub color: u32,
}

impl Shape for Text {
    open spec fn inv(&self) -> bool {
        &&& i32::MIN <= self.x0 + 6 * self.scale * self.chars@.len() <= i32::MAX
        &&& i32::MIN <= self.y0 + 7 * self.scale <= i32::MAX
    }

    open spec fn spec_at(&self, x: int, y: int) -> Option<u32> {
        text_layer(self.chars@, self.x0 as int, self.y0 as int, self.scale as int, self.color)(x, y)
    }

    open spec fn spec_bounds(&self) -> (int, int, int, int) {
        if self.scale > 0 {
            (
                self.x0 as int,
                self.y0 as int,
                self.x0 + 6 * self.scale * self.chars@.len(),
                self.y0 + 7 * self.scale,
            )
        } else {
            (self.x0 as int, self.y0 as int, self.x0 as int, self.y0 as int)
        }
    }

    proof fn lemma_outside(&self, x: int, y: int) {
        lemma_text_extent(self.chars@, self.x0 as int, self.y0 as int, self.scale as int, self.color, x, y);
    }

    fn bounds(&self) -> (r: (i32, i32, i32, i32)) {
        if self.scale > 0 {
            let len = self.chars.len();
            proof {
                let s = self.scale as int;
                let n = len as int;
                assert(n <= 6 * s * n) by (nonlinear_arith)
                    requires
                        s >= 1,
                        n >= 0,
                ;
            }
            let n = len as i64;
            let s = self.scale as i64;
            let xe = self.x0 as i64 + 6 * s * n;
            let ye = self.y0 as i64 + 7 * s;
            (self.x0, self.y0, xe as i32, ye as i32)
        } else {
            (self.x0, self.y0, self.x0, self.y0)
        }
    }

    fn at(&self, x: i32, y: i32) -> (c: Option<u32>) {
        let s = self.scale as i64;
        let dx = x as i64 - self.x0 as i64;
        let dy = y as i64 - self.y0 as i64;
        let cell = 6 * s;
        let k = dx / cell;
        let col = (dx % cell) / s;
        let row = dy / s;
        proof {
            vstd::arithmetic::div_mod::lemma_fundamental_div_mod(dx as int, cell as int);
            vstd::arithmetic::div_mod::lemma_mod_pos_bound(dx as int, cell as int);
            vstd::arithmetic::div_mod::lemma_fundamental_div_mod(dy as int, s as int);
            vstd::arithmetic::div_mod::lemma_mod_pos_bound(dy as int, s as int);
            if k as int >= self.chars@.len() {
                assert(dx >= 6 * s * self.chars@.len()) by (nonlinear_arith)
                    requires
                        dx == cell * k + dx % cell,
                        dx % cell >= 0,
                        cell == 6 * s,
                        k >= self.chars@.len(),
                        s > 0,
                ;
            }
            assert(k >= 0) by (nonlinear_arith)
                requires
                    dx == cell * k + dx % cell,
                    dx % cell < cell,
                    dx >= 0,
                    cell > 0,
            ;
            assert(row >= 0) by (nonlinear_arith)
                requires
                    dy == s * row + dy % s,
                    dy % s < s,
                    dy >= 0,
                    s > 0,
            ;
            assert(col >= 0) by (nonlinear_arith)
                requires
                    col == (dx % cell) / s,
                    dx % cell >= 0,
                    s > 0,
            ;
        }
        if col < 5 && row < 7 {
            let rows = glyph(self.chars[k as usize]);
            let bits: u8 = rows[row as usize];
            if (bits >> ((4 - col) as u8)) & 1u8 == 1u8 {
                return Some(self.color);
            }
        }
        None
    }
}

/// The characters of `text`, in order.
pub fn text_chars(text: &str) -> (v: Vec<char>)
    ensures
        v@ == text@,
{
    let mut v: Vec<char> = Vec::new();
    for c in it: text.chars()
        invariant
            v@ == it.seq().take(it.index() as int),
    {
        v.push(c);
    }
    v
}

/// Draws the characters `text` from `(x0, y0)` at `scale` (see `text_layer`).
pub fn draw_chars(
    buffer: &mut [u32],
    screen_w: usize,
    screen_h: usize,
    text: Vec<char>,
    x0: i32,
    y0: i32,
    scale: i32,
    color: u32,
)
    requires
        screen_w * screen_h <= old(buffer)@.len(),
        i32::MIN <= x0 + 6 * scale * text@.len() <= i32::MAX,
        i32::MIN <= y0 + 7 * scale <= i32::MAX,
    ensures
        final(buffer)@ == paint(
            old(buffer)@,
            screen_w as int,
            screen_h as int,
            text_layer(text@, x0 as int, y0 as int, scale as int, color),
        ),
{
    let ghost t = text@;
    let shape = Text { chars: text, x0, y0, scale, color };
    let ghost old_buf = buffer@;
    draw_shape(buffer, screen_w, screen_h, &shape);
    proof {
        lemma_paint_ext(
            old_buf,
            screen_w as int,
            screen_h as int,
            shape_layer(&shape),
            text_layer(t, x0 as int, y0 as int, scale as int, color),
        );
    }
}

/// Draws `text` with its top-left corner at `(x0, y0)`, each font pixel a
/// `scale` x `scale` block of `color`, and one blank font column between letters.
pub fn draw_text(
    buffer: &mut [u32],
    screen_w: usize,
    screen_h: usize,
    text: &str,
    x0: i32,
    y0: i32,
    scale: i32,
    color: u32,
)
    requires
        screen_w * screen_h <= old(buffer)@.len(),
        i32::MIN <= x0 + 6 * scale * text@.len() <= i32::MAX,
        i32::MIN <= y0 + 7 * scale <= i32::MAX,
    ensures
        final(buffer)@ == paint(
            old(buffer)@,
            screen_w as int,
            screen_h as int,
            text_layer(text@, x0 as int, y0 as int, scale as int, color),
        ),
{
    let chars = text_chars(text);
    draw_chars(buffer, screen_w, screen_h, chars, x0, y0, scale, color);
}

/// The width in pixels that `text` takes when drawn at `scale` (useful for centring).
pub fn text_width(text: &str, scale: i32) -> (w: i32)
    requires
        text@.len() * 6 <= i32::MAX,
        i32::MIN <= spec_text_width(text@.len() as int, scale as int) <= i32::MAX,
    ensures
        w == spec_text_width(text@.len() as int, scale as int),
{
    let mut n: usize = 0;
    for c in it: text.chars()
        invariant
            n == it.index(),
            it.seq() == text@,
            text@.len() * 6 <= i32::MAX,
    {
        assert(n < text@.len());
        n = n + 1;
    }
    let m = n as i32 * 6;
    assert(m * scale == 6 * scale * text@.len()) by (nonlinear_arith)
        requires
            m == n * 6,
            n == text@.len(),
    ;
    m * scale
}

} // verus!
