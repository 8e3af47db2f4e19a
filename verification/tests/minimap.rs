use ray_caster::map::LevelMap;
use ray_caster::minimap::{draw_minimap, MinimapMarkers};

fn put(buffer: &mut [u32], w: usize, h: usize, x: i32, y: i32, color: u32) {
    if x < 0 || y < 0 || x as usize >= w || y as usize >= h {
        return;
    }
    buffer[y as usize * w + x as usize] = color;
}

/// The minimap drawn pixel by pixel, in the same order.
fn naive_minimap(buffer: &mut [u32], w: usize, h: usize, map: &LevelMap, m: &MinimapMarkers) {
    let mw = map.width() * 6;
    let mh = map.height() * 6;
    let ox = w.saturating_sub(mw + 12) as i32;
    let oy = 12i32;
    for py in 0..mh {
        for px in 0..mw {
            put(buffer, w, h, ox + px as i32, oy + py as i32, 0x101018);
        }
    }
    for cy in 0..map.height() {
        for cx in 0..map.width() {
            let cell = map.get(cx as i32, cy as i32);
            if cell == 0 {
                continue;
            }
            let color = match cell {
                1 => 0xFF5544,
                2 => 0x33DD55,
                3 => 0x2299FF,
                4 => 0xBB44DD,
                5 => 0xEEDD22,
                6 => 0x55EEEE,
                _ => 0xFFFFFF,
            };
            for py in 0..6 {
                for px in 0..6 {
                    put(buffer, w, h, ox + (cx * 6 + px) as i32, oy + (cy * 6 + py) as i32, color);
                }
            }
        }
    }
    let gx = ox + m.goal_x;
    let gy = oy + m.goal_y;
    let r = m.goal_radius;
    for dy in -r..=r {
        for dx in -r..=r {
            if dx * dx + dy * dy <= r * r {
                put(buffer, w, h, gx + dx, gy + dy, 0xFFEE00);
            }
        }
    }
    let px = ox + m.player_x;
    let py = oy + m.player_y;
    for dy in -2..=2 {
        for dx in -2..=2 {
            put(buffer, w, h, px + dx, py + dy, 0xFFFFFF);
        }
    }
    for &(hx, hy) in m.heading.iter() {
        put(buffer, w, h, px + hx, py + hy, 0xFF00FF);
    }
    for x in 0..mw {
        put(buffer, w, h, ox + x as i32, oy - 1, 0xFFFFFF);
        put(buffer, w, h, ox + x as i32, oy + mh as i32, 0xFFFFFF);
    }
    for y in 0..mh {
        put(buffer, w, h, ox - 1, oy + y as i32, 0xFFFFFF);
        put(buffer, w, h, ox + mw as i32, oy + y as i32, 0xFFFFFF);
    }
}

fn markers(goal_radius: i32, player: (i32, i32), heading: Vec<(i32, i32)>) -> MinimapMarkers {
    MinimapMarkers { goal_x: 135, goal_y: 93, goal_radius, player_x: player.0, player_y: player.1, heading }
}

#[test]
fn minimap_matches_pixel_by_pixel_drawing() {
    let map = LevelMap::brain_level();
    let heading: Vec<(i32, i32)> = (0..8).map(|i| (i, i / 2)).collect();
    for (w, h) in [(800usize, 600usize), (150, 100), (100, 20)] {
        for m in [markers(3, (21, 15), heading.clone()), markers(6, (150, 2), vec![]), markers(-2, (-5, 300), heading.clone())] {
            let mut a: Vec<u32> = (0..w * h).map(|i| i as u32 & 0xFFFF).collect();
            let mut b = a.clone();
            draw_minimap(&mut a, w, h, &map, &m);
            naive_minimap(&mut b, w, h, &map, &m);
            assert_eq!(a, b, "{}x{}", w, h);
        }
    }
}

#[test]
fn minimap_sits_in_the_top_right_corner() {
    let map = LevelMap::brain_level();
    let (w, h) = (800usize, 600usize);
    let mut a = vec![0u32; w * h];
    draw_minimap(&mut a, w, h, &map, &markers(3, (21, 15), vec![]));
    let ox = 800 - (26 * 6 + 12);
    assert_eq!(ox, 632);
    assert_eq!(a[12 * w + ox], 0xFF5544);
    assert_eq!(a[(12 + 6) * w + ox + 6], 0x101018);
    assert_eq!(a[11 * w + ox], 0xFFFFFF);
    assert_eq!(a[11 * w + ox - 1], 0);
    assert_eq!(a[(12 + 15) * w + ox + 21], 0xFFFFFF);
    assert_eq!(a[(12 + 93) * w + ox + 135], 0xFFEE00);
}
