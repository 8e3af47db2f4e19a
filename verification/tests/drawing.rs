use ray_caster::canvas::{fill_rect, put_pixel};
use ray_caster::color::{invert_colors, rgb};
use ray_caster::font::{draw_text, text_width};
use ray_caster::hud::{decimal_chars, draw_crosshair, draw_hud, int_chars};
use ray_caster::screens::{draw_centered, draw_level_complete, draw_welcome_panel};

/// Rows of the 5x7 font as strings, '#' lit.
fn glyph_rows(c: char) -> [&'static str; 7] {
    match c.to_ascii_uppercase() {
        'A' => [".###.", "#...#", "#...#", "#####", "#...#", "#...#", "#...#"],
        'C' => [".####", "#....", "#....", "#....", "#....", "#....", ".####"],
        'D' => ["####.", "#...#", "#...#", "#...#", "#...#", "#...#", "####."],
        'E' => ["#####", "#....", "#....", "####.", "#....", "#....", "#####"],
        'F' => ["#####", "#....", "#....", "####.", "#....", "#....", "#...."],
        'G' => [".####", "#....", "#....", "#.###", "#...#", "#...#", ".####"],
        'I' => ["#####", "..#..", "..#..", "..#..", "..#..", "..#..", "#####"],
        'J' => ["..###", "...#.", "...#.", "...#.", "...#.", "#..#.", ".##.."],
        'L' => ["#....", "#....", "#....", "#....", "#....", "#....", "#####"],
        'M' => ["#...#", "##.##", "#.#.#", "#...#", "#...#", "#...#", "#...#"],
        'N' => ["#...#", "##..#", "#.#.#", "#..##", "#...#", "#...#", "#...#"],
        'O' => [".###.", "#...#", "#...#", "#...#", "#...#", "#...#", ".###."],
        'P' => ["####.", "#...#", "#...#", "####.", "#....", "#....", "#...."],
        'R' => ["####.", "#...#", "#...#", "####.", "#.#..", "#..#.", "#...#"],
        'S' => [".####", "#....", "#....", ".###.", "....#", "....#", "####."],
        'T' => ["#####", "..#..", "..#..", "..#..", "..#..", "..#..", "..#.."],
        'U' => ["#...#", "#...#", "#...#", "#...#", "#...#", "#...#", ".###."],
        'V' => ["#...#", "#...#", "#...#", "#...#", "#...#", ".#.#.", "..#.."],
        'W' => ["#...#", "#...#", "#...#", "#.#.#", "#.#.#", "##.##", "#...#"],
        'Y' => ["#...#", "#...#", ".#.#.", "..#..", "..#..", "..#..", "..#.."],
        '0' => [".###.", "#...#", "#..##", "#.#.#", "##..#", "#...#", ".###."],
        '1' => ["..#..", ".##..", "..#..", "..#..", "..#..", "..#..", ".###."],
        '2' => [".###.", "#...#", "....#", "...#.", "..#..", ".#...", "#####"],
        '3' => ["####.", "....#", "....#", "..##.", "....#", "....#", "####."],
        '4' => ["...#.", "..##.", ".#.#.", "#..#.", "#####", "...#.", "...#."],
        '5' => ["#####", "#....", "####.", "....#", "....#", "#...#", ".###."],
        '6' => [".###.", "#....", "#....", "####.", "#...#", "#...#", ".###."],
        '7' => ["#####", "....#", "...#.", "..#..", ".#...", ".#...", ".#..."],
        '8' => [".###.", "#...#", "#...#", ".###.", "#...#", "#...#", ".###."],
        '9' => [".###.", "#...#", "#...#", ".####", "....#", "....#", ".###."],
        ':' => [".....", "..#..", ".....", ".....", "..#..", ".....", "....."],
        '+' => [".....", "..#..", "..#..", "#####", "..#..", "..#..", "....."],
        '-' => [".....", ".....", ".....", "#####", ".....", ".....", "....."],
        _ => [".....", ".....", ".....", ".....", ".....", ".....", "....."],
    }
}


/// Draws text font pixel by font pixel, block by block.
fn naive_text(buffer: &mut [u32], w: usize, h: usize, text: &str, x0: i32, y0: i32, scale: i32, color: u32) {
    let mut cursor_x = x0;
    for ch in text.chars() {
        let rows = glyph_rows(ch);
        for (r, row) in rows.iter().enumerate() {
            for (c, p) in row.chars().enumerate() {
                if p != '#' {
                    continue;
                }
                for sy in 0..scale {
                    for sx in 0..scale {
                        let fx = cursor_x + c as i32 * scale + sx;
                        let fy = y0 + r as i32 * scale + sy;
                        if fx >= 0 && fy >= 0 && (fx as usize) < w && (fy as usize) < h {
                            buffer[fy as usize * w + fx as usize] = color;
                        }
                    }
                }
            }
        }
        cursor_x += 6 * scale;
    }
}

fn naive_width(text: &str, scale: i32) -> i32 {
    text.chars().count() as i32 * 6 * scale
}

fn naive_centered(buffer: &mut [u32], w: usize, h: usize, text: &str, y: i32, scale: i32, color: u32) {
    let x = (w as i32 - naive_width(text, scale)) / 2;
    naive_text(buffer, w, h, text, x, y, scale, color);
}

fn naive_rect(buffer: &mut [u32], w: usize, h: usize, x0: i32, y0: i32, rw: i32, rh: i32, color: u32) {
    for y in y0..(y0 + rh) {
        for x in x0..(x0 + rw) {
            if x >= 0 && y >= 0 && (x as usize) < w && (y as usize) < h {
                buffer[y as usize * w + x as usize] = color;
            }
        }
    }
}

fn blank(w: usize, h: usize) -> Vec<u32> {
    (0..w * h).map(|i| (i as u32).wrapping_mul(2654435761) & 0xFFFFFF).collect()
}

#[test]
fn rgb_packs_channels() {
    assert_eq!(rgb(0x12, 0x34, 0x56), 0x123456);
    assert_eq!(rgb(255, 0, 255), 0xFF00FF);
    assert_eq!(rgb(0, 0, 0), 0);
    assert_eq!(rgb(255, 255, 255), 0xFFFFFF);
}

#[test]
fn invert_negates_each_channel() {
    let mut b = vec![0x000000, 0xFFFFFF, 0x123456, 0xFF123456, 0x00FF00];
    invert_colors(&mut b);
    assert_eq!(b, vec![0xFFFFFF, 0x000000, 0xEDCBA9, 0xEDCBA9, 0xFF00FF]);
}

#[test]
fn inverting_twice_restores_the_frame() {
    let orig = blank(40, 30);
    let mut b = orig.clone();
    invert_colors(&mut b);
    assert_ne!(b, orig);
    invert_colors(&mut b);
    assert_eq!(b, orig);
}

#[test]
fn put_pixel_writes_only_on_screen() {
    let mut b = vec![7u32; 12];
    put_pixel(&mut b, 4, 3, 1, 2, 9);
    assert_eq!(b[9], 9);
    for (x, y) in [(-1, 0), (0, -1), (4, 0), (0, 3), (i32::MAX, 1)] {
        put_pixel(&mut b, 4, 3, x, y, 5);
    }
    let mut expected = vec![7u32; 12];
    expected[9] = 9;
    assert_eq!(b, expected);
    let mut big = vec![1u32; 14];
    put_pixel(&mut big, 4, 3, 1, 3, 5);
    assert_eq!(big, vec![1u32; 14]);
}

#[test]
fn fill_rect_clips_to_the_screen() {
    for (x0, y0, rw, rh) in [(2, 3, 5, 4), (-3, -2, 6, 5), (15, 10, 10, 10), (0, 0, 0, 5), (4, 4, -2, 3), (-50, -50, 200, 200)] {
        let mut a = blank(20, 12);
        let mut b = a.clone();
        fill_rect(&mut a, 20, 12, x0, y0, rw, rh, 0xABCDEF);
        naive_rect(&mut b, 20, 12, x0, y0, rw, rh, 0xABCDEF);
        assert_eq!(a, b, "rect {:?}", (x0, y0, rw, rh));
    }
}

#[test]
fn text_width_counts_six_columns_per_character() {
    assert_eq!(text_width("ABC", 2), 36);
    assert_eq!(text_width("", 4), 0);
    assert_eq!(text_width("HOLA MUNDO", 1), 60);
    assert_eq!(text_width("ñ", 3), 18);
    assert_eq!(text_width("AB", -2), -24);
}

#[test]
fn draw_text_matches_block_drawing() {
    let texts = ["ACDEFGIJLMNOPRSTUVWY", "acdefgijlmnoprstuvwy", "BHKQXZ bhkqxz!?.,", "RAYCASTER PSICODELICO", "fps: 60", "0123456789:+-", "¿Qué?", "", "MUNDO INVERTIDO"];
    for text in texts {
        for (x0, y0, scale) in [(0, 0, 1), (10, 10, 2), (-7, 3, 3), (30, -5, 2), (5, 5, 0), (5, 5, -1), (100, 50, 4)] {
            let mut a = blank(260, 60);
            let mut b = a.clone();
            draw_text(&mut a, 260, 60, text, x0, y0, scale, 0x33FF99);
            naive_text(&mut b, 260, 60, text, x0, y0, scale, 0x33FF99);
            assert_eq!(a, b, "text {:?} at {:?}", text, (x0, y0, scale));
        }
    }
}

#[test]
fn letter_a_at_scale_one() {
    let mut b = vec![0u32; 10 * 8];
    draw_text(&mut b, 10, 8, "a", 0, 0, 1, 1);
    let lit: Vec<String> = (0..7)
        .map(|y| (0..6).map(|x| if b[y * 10 + x] == 1 { '#' } else { '.' }).collect())
        .collect();
    assert_eq!(lit, vec![".###..", "#...#.", "#...#.", "#####.", "#...#.", "#...#.", "#...#."]);
}

#[test]
fn centred_text_matches() {
    for (w, text, scale) in [(800usize, "PULSA ENTER", 3), (60, "ENTER PARA JUGAR", 2), (61, "A", 1), (50, "AB", -2), (50, "", 3)] {
        let mut a = blank(w, 40);
        let mut b = a.clone();
        draw_centered(&mut a, w, 40, text, 5, scale, 0x55EEEE);
        naive_centered(&mut b, w, 40, text, 5, scale, 0x55EEEE);
        assert_eq!(a, b);
    }
}

#[test]
fn numbers_are_written_in_decimal() {
    let s = |v: Vec<char>| v.into_iter().collect::<String>();
    assert_eq!(s(decimal_chars(0)), "0");
    assert_eq!(s(decimal_chars(7)), "7");
    assert_eq!(s(decimal_chars(10)), "10");
    assert_eq!(s(decimal_chars(4294967295)), "4294967295");
    assert_eq!(s(int_chars(60)), "60");
    assert_eq!(s(int_chars(-5)), "-5");
    assert_eq!(s(int_chars(i32::MIN)), "-2147483648");
    assert_eq!(s(int_chars(i32::MAX)), "2147483647");
}

#[test]
fn crosshair_is_two_bars() {
    let (w, h) = (40usize, 30usize);
    let mut a = blank(w, h);
    let mut b = a.clone();
    draw_crosshair(&mut a, w, h);
    for d in -6..=6 {
        for (x, y) in [(20 + d, 15), (20, 15 + d)] {
            b[y as usize * w + x as usize] = 0xFFFFFF;
        }
    }
    assert_eq!(a, b);
    let mut small = blank(5, 3);
    let mut small_b = small.clone();
    draw_crosshair(&mut small, 5, 3);
    naive_rect(&mut small_b, 5, 3, 2 - 6, 1, 13, 1, 0xFFFFFF);
    naive_rect(&mut small_b, 5, 3, 2, 1 - 6, 1, 13, 0xFFFFFF);
    assert_eq!(small, small_b);
}

#[test]
fn hud_shows_fps_hits_and_notice() {
    for (fps, hits, inverted) in [(60, 0u32, false), (-3, 12, true), (1234, 4000000000, true)] {
        let (w, h) = (300usize, 80usize);
        let mut a = blank(w, h);
        let mut b = a.clone();
        draw_hud(&mut a, w, h, fps, hits, inverted);
        naive_text(&mut b, w, h, &format!("FPS: {}", fps), 10, 10, 2, 0x00FF00);
        naive_text(&mut b, w, h, &format!("IMPACTOS: {}", hits), 10, 30, 2, 0xFFFF00);
        if inverted {
            naive_text(&mut b, w, h, "MUNDO INVERTIDO", 10, 50, 2, 0xFF00FF);
        }
        assert_eq!(a, b);
    }
}

#[test]
fn panel_sizes_agree_with_float_fractions() {
    for w in 0u32..20000 {
        assert_eq!((w as f32 * 0.72) as i64, w as i64 * 18 / 25, "w = {}", w);
        assert_eq!((w as f32 * 0.46) as i64, w as i64 * 23 / 50, "w = {}", w);
        assert_eq!((w as f32 * 0.6) as i64, w as i64 * 3 / 5, "w = {}", w);
        assert_eq!((w as f32 * 0.34) as i64, w as i64 * 17 / 50, "w = {}", w);
    }
}

#[test]
fn welcome_panel_layout() {
    for (w, h, blink) in [(800usize, 600usize, true), (800, 600, false), (320, 200, true), (7, 5, true)] {
        let mut a = blank(w, h);
        let mut b = a.clone();
        draw_welcome_panel(&mut a, w, h, blink);
        let pw = (w as f32 * 0.72) as i32;
        let ph = (h as f32 * 0.46) as i32;
        let px = (w as i32 - pw) / 2;
        let py = (h as i32 - ph) / 2;
        naive_rect(&mut b, w, h, px, py, pw, ph, 0x000000);
        naive_rect(&mut b, w, h, px + 4, py + 4, pw - 8, ph - 8, 0x1a0033);
        let mut y = py + 26;
        naive_centered(&mut b, w, h, "RAYCASTER PSICODELICO", y, 4, 0xFF33CC);
        y += 4 * 9 + 18;
        naive_centered(&mut b, w, h, "WASD Y MOUSE PARA MOVERTE", y, 2, 0xFFFFFF);
        y += 2 * 9 + 10;
        naive_centered(&mut b, w, h, "ENTER PARA JUGAR", y, 2, 0x55EEEE);
        y += 2 * 9 + 18;
        if blink {
            naive_centered(&mut b, w, h, "PULSA ENTER", y, 3, 0x33FF99);
        }
        assert_eq!(a, b, "{}x{} blink {}", w, h, blink);
    }
}

#[test]
fn level_complete_panel_layout() {
    for (w, h, hits) in [(800usize, 600usize, 0u32), (800, 600, 17), (640, 480, u32::MAX)] {
        let mut a = blank(w, h);
        let mut b = a.clone();
        draw_level_complete(&mut a, w, h, hits);
        let pw = (w as f32 * 0.6) as i32;
        let ph = (h as f32 * 0.34) as i32;
        let px = (w as i32 - pw) / 2;
        let py = (h as i32 - ph) / 2;
        naive_rect(&mut b, w, h, px, py, pw, ph, 0x000000);
        naive_rect(&mut b, w, h, px + 4, py + 4, pw - 8, ph - 8, 0x0d2b0d);
        let mut y = py + 24;
        naive_centered(&mut b, w, h, "NIVEL COMPLETADO", y, 3, 0x33FF99);
        y += 3 * 9 + 20;
        naive_centered(&mut b, w, h, &format!("IMPACTOS EN LA DIANA: {}", hits), y, 2, 0xFFFFFF);
        y += 2 * 9 + 14;
        naive_centered(&mut b, w, h, "PULSA R PARA REINICIAR", y, 2, 0x55EEEE);
        assert_eq!(a, b);
    }
}

#[test]
fn text_stays_within_its_width() {
    let (w, h) = (100usize, 30usize);
    let mut b = vec![0u32; w * h];
    let width = text_width("MWAM", 2);
    draw_text(&mut b, w, h, "MWAM", 5, 3, 2, 9);
    for y in 0..h {
        for x in 0..w {
            let inside = x >= 5 && (x as i32) < 5 + width && y >= 3 && y < 3 + 14;
            if !inside {
                assert_eq!(b[y * w + x], 0, "pixel ({}, {})", x, y);
            }
        }
    }
    assert_eq!(b[3 * w + 5], 9);
    assert_eq!(b[3 * w + 5 + 4 * 2 + 1], 9);
    assert_eq!(b[3 * w + 5 + 5 * 2], 0);
}

fn draw_one(c: char) -> Vec<u32> {
    let mut b = vec![0u32; 8 * 8];
    draw_text(&mut b, 8, 8, &c.to_string(), 0, 0, 1, 1);
    b
}

#[test]
fn glyphs_fit_five_by_seven_and_ignore_case() {
    for code in 0u32..0x250 {
        let Some(c) = char::from_u32(code) else { continue };
        let b = draw_one(c);
        for y in 0..8 {
            for x in 0..8 {
                if x >= 5 || y >= 7 {
                    assert_eq!(b[y * 8 + x], 0, "char {:?} lights ({}, {})", c, x, y);
                }
            }
        }
        if c.is_ascii_lowercase() {
            assert_eq!(b, draw_one(c.to_ascii_uppercase()), "char {:?}", c);
        }
    }
}

#[test]
fn screen_texts_are_visible() {
    let texts = [
        "RAYCASTER PSICODELICO",
        "WASD Y MOUSE PARA MOVERTE",
        "ENTER PARA JUGAR",
        "PULSA ENTER",
        "NIVEL COMPLETADO",
        "IMPACTOS EN LA DIANA: ",
        "PULSA R PARA REINICIAR",
        "FPS: ",
        "IMPACTOS: ",
        "MUNDO INVERTIDO",
        "0123456789-",
    ];
    for text in texts {
        for c in text.chars().filter(|&c| c != ' ') {
            assert!(draw_one(c).iter().any(|&p| p == 1), "char {:?} of {:?} is blank", c, text);
        }
    }
}
