//! The heads-up display drawn over the 3D view: the crosshair, and the frame rate,
//! hit count and inverted-world notice in the top-left corner.
use vstd::prelude::*;
use crate::canvas::{fill_rect, lemma_paint_ext, lemma_paint_twice, on_screen, over, paint, rect_layer};
use crate::font::{draw_chars, text_chars, text_layer};

verus! {

/// The character of a decimal digit.
pub open spec fn digit_char(d: int) -> char {
    if d == 0 {
        '0'
    } else if d == 1 {
        '1'
    } else if d == 2 {
        '2'
    } else if d == 3 {
        '3'
    } else if d == 4 {
        '4'
    } else if d == 5 {
        '5'
    } else if d == 6 {
        '6'
    } else if d == 7 {
        '7'
    } else if d == 8 {
        '8'
    } else {
        '9'
    }
}

/// The decimal notation of `n`, without leading zeros.
pub open spec fn decimal(n: nat) -> Seq<char>
    decreases n,
{
    if n < 10 {
        seq![digit_char(n as int)]
    } else {
        decimal(n / 10).push(digit_char((n % 10) as int))
    }
}

/// The decimal notation of a signed number, with a leading `-` when negative.
pub open spec fn int_text(n: int) -> Seq<char> {
    if n < 0 {
        seq!['-'] + decimal((-n) as nat)
    } else {
        decimal(n as nat)
    }
}

/// `10^k`.
pub open spec fn ten_pow(k: nat) -> nat
    decreases k,
{
    if k == 0 {
        1
    } else {
        10 * ten_pow((k - 1) as nat)
    }
}

/// A number below `10^k` (with `k >= 1`) has at most `k` digits.
pub proof fn lemma_decimal_len(n: nat, k: nat)
    requires
        k >= 1,
        n < ten_pow(k),
    ensures
        1 <= decimal(n).len() <= k,
    decreases n,
{
    if n >= 10 {
        if k == 1 {
            assert(ten_pow(1) == 10);
        } else {
            lemma_decimal_len(n / 10, (k - 1) as nat);
        }
    }
}

/// Every `u32` has at most ten digits.
pub proof fn lemma_u32_digits(n: nat)
    requires
        n <= u32::MAX + 1,
    ensures
        1 <= decimal(n).len() <= 10,
{
    reveal_with_fuel(ten_pow, 11);
    assert(ten_pow(10) == 10000000000nat);
    lemma_decimal_len(n, 10);
}

/// The character of digit `d`.
fn digit_to_char(d: u32) -> (c: char)
    requires
        d < 10,
    ensures
        c == digit_char(d as int),
{
    if d == 0 {
        '0'
    } else if d == 1 {
        '1'
    } else if d == 2 {
        '2'
    } else if d == 3 {
        '3'
    } else if d == 4 {
        '4'
    } else if d == 5 {
        '5'
    } else if d == 6 {
        '6'
    } else if d == 7 {
        '7'
    } else if d == 8 {
        '8'
    } else {
        '9'
    }
}

/// The decimal notation of `n`.
pub fn decimal_chars(n: u32) -> (v: Vec<char>)
    ensures
        v@ == decimal(n as nat),
    decreases n,
{
    if n < 10 {
        let mut v: Vec<char> = Vec::new();
        v.push(digit_to_char(n));
        v
    } else {
        let mut v = decimal_chars(n / 10);
        v.push(digit_to_char(n % 10));
        v
    }
}

/// The decimal notation of a signed number, as `format!("{}", n)` writes it.
pub fn int_chars(n: i32) -> (v: Vec<char>)
    ensures
        v@ == int_text(n as int),
{
    if n < 0 {
        let m: u32 = if n == i32::MIN {
            2147483648u32
        } else {
            (-n) as u32
        };
        let mut v: Vec<char> = Vec::new();
        v.push('-');
        let mut digits = decimal_chars(m);
        v.append(&mut digits);
        v
    } else {
        decimal_chars(n as u32)
    }
}

/// `prefix` followed by `rest`.
fn join_chars(prefix: &str, rest: Vec<char>) -> (v: Vec<char>)
    ensures
        v@ == prefix@ + rest@,
{
    let mut v = text_chars(prefix);
    let mut r = rest;
    v.append(&mut r);
    v
}

/// The crosshair at `(cx, cy)`: a horizontal and a vertical bar, each 13 pixels
/// long, crossing there.
pub open spec fn cross_layer(cx: int, cy: int, color: u32) -> spec_fn(int, int) -> Option<u32> {
    |x: int, y: int|
        if (y == cy && cx - 6 <= x <= cx + 6) || (x == cx && cy - 6 <= y <= cy + 6) {
            Some(color)
        } else {
            None
        }
}

/// Draws a small white crosshair at the centre of the screen.
pub fn draw_crosshair(buffer: &mut [u32], screen_w: usize, screen_h: usize)
    requires
        screen_w * screen_h <= old(buffer)@.len(),
        screen_w / 2 + 7 <= i32::MAX,
        screen_h / 2 + 7 <= i32::MAX,
    ensures
        final(buffer)@ == paint(
            old(buffer)@,
            screen_w as int,
            screen_h as int,
            cross_layer((screen_w / 2) as int, (screen_h / 2) as int, 0xFFFFFF),
        ),
{
    let ghost old_buf = buffer@;
    let ghost w = screen_w as int;
    let ghost h = screen_h as int;
    let cx = (screen_w / 2) as i32;
    let cy = (screen_h / 2) as i32;
    fill_rect(buffer, screen_w, screen_h, cx - 6, cy, 13, 1, 0xFFFFFF);
    fill_rect(buffer, screen_w, screen_h, cx, cy - 6, 1, 13, 0xFFFFFF);
    proof {
        let hbar = rect_layer(cx - 6, cy as int, 13, 1, 0xFFFFFF);
        let vbar = rect_layer(cx as int, cy - 6, 1, 13, 0xFFFFFF);
        lemma_paint_twice(old_buf, w, h, hbar, vbar);
        lemma_paint_ext(old_buf, w, h, over(vbar, hbar), cross_layer(cx as int, cy as int, 0xFFFFFF));
    }
}

/// The heads-up display drawn on `old`: `FPS: <fps>` in green at `(10, 10)`, then
/// `IMPACTOS: <hits>` in yellow at `(10, 30)`, then, in the inverted world,
/// `MUNDO INVERTIDO` in magenta at `(10, 50)`, all at scale 2.
pub open spec fn hud_frame(old: Seq<u32>, w: int, h: int, fps: int, hits: int, inverted: bool) -> Seq<u32> {
    let s1 = paint(old, w, h, text_layer("FPS: "@ + int_text(fps), 10, 10, 2, 0x00FF00));
    let s2 = paint(s1, w, h, text_layer("IMPACTOS: "@ + decimal(hits as nat), 10, 30, 2, 0xFFFF00));
    if inverted {
        paint(s2, w, h, text_layer("MUNDO INVERTIDO"@, 10, 50, 2, 0xFF00FF))
    } else {
        s2
    }
}

/// Draws the heads-up display: the frame rate (already rounded to a whole number),
/// the hits on the target, and a notice while the world is inverted.
pub fn draw_hud(buffer: &mut [u32], screen_w: usize, screen_h: usize, fps: i32, hits: u32, inverted: bool)
    requires
        screen_w * screen_h <= old(buffer)@.len(),
    ensures
        final(buffer)@ == hud_frame(
            old(buffer)@,
            screen_w as int,
            screen_h as int,
            fps as int,
            hits as int,
            inverted,
        ),
{
    proof {
        reveal_strlit("FPS: ");
        reveal_strlit("IMPACTOS: ");
        reveal_strlit("MUNDO INVERTIDO");
        if fps < 0 {
            lemma_u32_digits((-fps) as nat);
        } else {
            lemma_u32_digits(fps as nat);
        }
        lemma_u32_digits(hits as nat);
    }
    let fps_text = join_chars("FPS: ", int_chars(fps));
    draw_chars(buffer, screen_w, screen_h, fps_text, 10, 10, 2, 0x00FF00);
    let hits_text = join_chars("IMPACTOS: ", decimal_chars(hits));
    draw_chars(buffer, screen_w, screen_h, hits_text, 10, 30, 2, 0xFFFF00);
    if inverted {
        let notice = text_chars("MUNDO INVERTIDO");
        draw_chars(buffer, screen_w, screen_h, notice, 10, 50, 2, 0xFF00FF);
    }
}

} // verus!
