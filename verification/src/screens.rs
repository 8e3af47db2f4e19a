//! The panels of the title screen and of the level-completed screen.
use vstd::prelude::*;
use crate::canvas::{fill_rect, paint, rect_layer};
use crate::font::{draw_chars, text_chars, text_layer, text_width};
use crate::hud::{decimal, decimal_chars, lemma_u32_digits};

verus! {

/// Half of `a`, rounded towards zero (Rust's integer division by 2).
pub open spec fn half(a: int) -> int {
    if a >= 0 {
        a / 2
    } else {
        -((-a) / 2)
    }
}

/// The left edge of `n` characters at `scale`, centred on a screen `w` pixels wide.
pub open spec fn centered_x(w: int, n: int, scale: int) -> int {
    half(w - 6 * scale * n)
}

/// Draws `text` horizontally centred on the screen, with its top at row `y`.
pub fn draw_centered_chars(
    buffer: &mut [u32],
    screen_w: usize,
    screen_h: usize,
    text: Vec<char>,
    y: i32,
    scale: i32,
    color: u32,
)
    requires
        screen_w * screen_h <= old(buffer)@.len(),
        screen_w <= i32::MAX,
        i32::MIN <= 6 * scale * text@.len() <= i32::MAX,
        i32::MIN <= screen_w - 6 * scale * text@.len() <= i32::MAX,
        i32::MIN <= y + 7 * scale <= i32::MAX,
    ensures
        final(buffer)@ == paint(
            old(buffer)@,
            screen_w as int,
            screen_h as int,
            text_layer(
                text@,
                centered_x(screen_w as int, text@.len() as int, scale as int),
                y as int,
                scale as int,
                color,
            ),
        ),
{
    let n = text.len();
    let width: i32 = if scale == 0 || n == 0 {
        proof {
            assert(6 * scale * n == 0) by (nonlinear_arith)
                requires
                    scale == 0 || n == 0,
            ;
        }
        0
    } else {
        proof {
            let s = scale as int;
            assert(n <= 6 * s * n || n <= -(6 * s * n)) by (nonlinear_arith)
                requires
                    s != 0,
                    n >= 0,
            ;
        }
        (6 * (scale as i64) * (n as i64)) as i32
    };
    assert(width == 6 * scale * n);
    let x = (screen_w as i32 - width) / 2;
    draw_chars(buffer, screen_w, screen_h, text, x, y, scale, color);
}

/// Draws `text` horizontally centred on the screen, with its top at row `y`.
pub fn draw_centered(
    buffer: &mut [u32],
    screen_w: usize,
    screen_h: usize,
    text: &str,
    y: i32,
    scale: i32,
    color: u32,
)
    requires
        screen_w * screen_h <= old(buffer)@.len(),
        screen_w <= i32::MAX,
        text@.len() * 6 <= i32::MAX,
        i32::MIN <= 6 * scale * text@.len() <= i32::MAX,
        i32::MIN <= screen_w - 6 * scale * text@.len() <= i32::MAX,
        i32::MIN <= y + 7 * scale <= i32::MAX,
    ensures
        final(buffer)@ == paint(
            old(buffer)@,
            screen_w as int,
            screen_h as int,
            text_layer(
                text@,
                centered_x(screen_w as int, text@.len() as int, scale as int),
                y as int,
                scale as int,
                color,
            ),
        ),
{
    let w = text_width(text, scale);
    let x = (screen_w as i32 - w) / 2;
    crate::font::draw_text(buffer, screen_w, screen_h, text, x, y, scale, color);
}

/// The title panel drawn on `old` for a `w` x `h` screen: a black panel of 72% of the
/// width and 46% of the height (rounded down), centred, with a dark purple inside
/// inset by 4 pixels; on it, centred, the title at scale 4 in pink from 26 pixels below
/// the panel's top, the controls line at scale 2 in white 54 pixels lower, the start
/// line at scale 2 in cyan 28 pixels lower, and, when `blink_on`, the blinking prompt at
/// scale 3 in green 36 pixels lower.
pub open spec fn welcome_panel_frame(old: Seq<u32>, w: int, h: int, blink_on: bool) -> Seq<u32> {
    let pw = w * 18 / 25;
    let ph = h * 23 / 50;
    let px = half(w - pw);
    let py = half(h - ph);
    let s1 = paint(old, w, h, rect_layer(px, py, pw, ph, 0x000000));
    let s2 = paint(s1, w, h, rect_layer(px + 4, py + 4, pw - 8, ph - 8, 0x1a0033));
    let t1 = "RAYCASTER PSICODELICO"@;
    let t2 = "WASD Y MOUSE PARA MOVERTE"@;
    let t3 = "ENTER PARA JUGAR"@;
    let t4 = "PULSA ENTER"@;
    let y1 = py + 26;
    let y2 = y1 + 54;
    let y3 = y2 + 28;
    let y4 = y3 + 36;
    let s3 = paint(s2, w, h, text_layer(t1, centered_x(w, t1.len() as int, 4), y1, 4, 0xFF33CC));
    let s4 = paint(s3, w, h, text_layer(t2, centered_x(w, t2.len() as int, 2), y2, 2, 0xFFFFFF));
    let s5 = paint(s4, w, h, text_layer(t3, centered_x(w, t3.len() as int, 2), y3, 2, 0x55EEEE));
    if blink_on {
        paint(s5, w, h, text_layer(t4, centered_x(w, t4.len() as int, 3), y4, 3, 0x33FF99))
    } else {
        s5
    }
}

/// Draws the title-screen panel: the game's name, the controls, and a blinking
/// "press Enter" prompt when `blink_on` (see `welcome_panel_frame`).
pub fn draw_welcome_panel(buffer: &mut [u32], screen_w: usize, screen_h: usize, blink_on: bool)
    requires
        screen_w * screen_h <= old(buffer)@.len(),
        screen_w <= i32::MAX,
        screen_h <= i32::MAX,
    ensures
        final(buffer)@ == welcome_panel_frame(old(buffer)@, screen_w as int, screen_h as int, blink_on),
{
    proof {
        reveal_strlit("RAYCASTER PSICODELICO");
        reveal_strlit("WASD Y MOUSE PARA MOVERTE");
        reveal_strlit("ENTER PARA JUGAR");
        reveal_strlit("PULSA ENTER");
    }
    let panel_w = (screen_w as i64 * 18 / 25) as i32;
    let panel_h = (screen_h as i64 * 23 / 50) as i32;
    let panel_x = (screen_w as i32 - panel_w) / 2;
    let panel_y = (screen_h as i32 - panel_h) / 2;

    fill_rect(buffer, screen_w, screen_h, panel_x, panel_y, panel_w, panel_h, 0x000000);
    fill_rect(buffer, screen_w, screen_h, panel_x + 4, panel_y + 4, panel_w - 8, panel_h - 8, 0x1a0033);

    let mut y = panel_y + 26;
    draw_centered(buffer, screen_w, screen_h, "RAYCASTER PSICODELICO", y, 4, 0xFF33CC);
    y = y + 4 * 9 + 18;

    draw_centered(buffer, screen_w, screen_h, "WASD Y MOUSE PARA MOVERTE", y, 2, 0xFFFFFF);
    y = y + 2 * 9 + 10;

    draw_centered(buffer, screen_w, screen_h, "ENTER PARA JUGAR", y, 2, 0x55EEEE);
    y = y + 2 * 9 + 18;

    if blink_on {
        draw_centered(buffer, screen_w, screen_h, "PULSA ENTER", y, 3, 0x33FF99);
    }
}

/// The level-completed panel drawn on `old` for a `w` x `h` screen: a black panel of
/// 60% of the width and 34% of the height (rounded down), centred, with a dark green
/// inside inset by 4 pixels; on it, centred, the title at scale 3 in green from 24
/// pixels below the panel's top, the hit count line at scale 2 in white 47 pixels
/// lower, and the restart hint at scale 2 in cyan 32 pixels lower.
pub open spec fn level_complete_frame(old: Seq<u32>, w: int, h: int, hits: nat) -> Seq<u32> {
    let pw = w * 3 / 5;
    let ph = h * 17 / 50;
    let px = half(w - pw);
    let py = half(h - ph);
    let s1 = paint(old, w, h, rect_layer(px, py, pw, ph, 0x000000));
    let s2 = paint(s1, w, h, rect_layer(px + 4, py + 4, pw - 8, ph - 8, 0x0d2b0d));
    let t1 = "NIVEL COMPLETADO"@;
    let t2 = "IMPACTOS EN LA DIANA: "@ + decimal(hits);
    let t3 = "PULSA R PARA REINICIAR"@;
    let y1 = py + 24;
    let y2 = y1 + 47;
    let y3 = y2 + 32;
    let s3 = paint(s2, w, h, text_layer(t1, centered_x(w, t1.len() as int, 3), y1, 3, 0x33FF99));
    let s4 = paint(s3, w, h, text_layer(t2, centered_x(w, t2.len() as int, 2), y2, 2, 0xFFFFFF));
    paint(s4, w, h, text_layer(t3, centered_x(w, t3.len() as int, 2), y3, 2, 0x55EEEE))
}

/// Draws the level-completed panel with the number of hits on the target and how
/// to restart (see `level_complete_frame`).
pub fn draw_level_complete(buffer: &mut [u32], screen_w: usize, screen_h: usize, hits: u32)
    requires
        screen_w * screen_h <= old(buffer)@.len(),
        screen_w <= i32::MAX,
        screen_h <= i32::MAX,
    ensures
        final(buffer)@ == level_complete_frame(old(buffer)@, screen_w as int, screen_h as int, hits as nat),
{
    proof {
        reveal_strlit("NIVEL COMPLETADO");
        reveal_strlit("IMPACTOS EN LA DIANA: ");
        reveal_strlit("PULSA R PARA REINICIAR");
        lemma_u32_digits(hits as nat);
    }
    let panel_w = (screen_w as i64 * 3 / 5) as i32;
    let panel_h = (screen_h as i64 * 17 / 50) as i32;
    let panel_x = (screen_w as i32 - panel_w) / 2;
    let panel_y = (screen_h as i32 - panel_h) / 2;

    fill_rect(buffer, screen_w, screen_h, panel_x, panel_y, panel_w, panel_h, 0x000000);
    fill_rect(buffer, screen_w, screen_h, panel_x + 4, panel_y + 4, panel_w - 8, panel_h - 8, 0x0d2b0d);

    let mut y = panel_y + 24;
    draw_centered(buffer, screen_w, screen_h, "NIVEL COMPLETADO", y, 3, 0x33FF99);
    y = y + 3 * 9 + 20;

    let mut hits_text = text_chars("IMPACTOS EN LA DIANA: ");
    let mut digits = decimal_chars(hits);
    hits_text.append(&mut digits);
    draw_centered_chars(buffer, screen_w, screen_h, hits_text, y, 2, 0xFFFFFF);
    y = y + 2 * 9 + 14;

    draw_centered(buffer, screen_w, screen_h, "PULSA R PARA REINICIAR", y, 2, 0x55EEEE);
}

} // verus!
