use ray_caster::map::LevelMap;
use ray_caster::raycast::walk_ray;

const ROWS: [&str; 18] = [
    "11111111111111111111111111",
    "10000000000000000000000001",
    "10000000000000000000000001",
    "10022220003333000444400001",
    "10022220003333000444400001",
    "10022220003333000444400001",
    "10000000000000000000000001",
    "10000000000000000000000001",
    "10000000000000000000000001",
    "10000555500006666022220001",
    "10000555500006666022220001",
    "10000555500006666022220001",
    "10000000000000000000000001",
    "10000000033330044440000001",
    "10000000033330044440000001",
    "10000000000000000000000001",
    "10000000000000000000000001",
    "11111111111111111111111111",
];

#[test]
fn brain_level_has_the_arena_layout() {
    let m = LevelMap::brain_level();
    assert_eq!(m.width(), 26);
    assert_eq!(m.height(), 18);
    for (y, row) in ROWS.iter().enumerate() {
        for (x, ch) in row.chars().enumerate() {
            let expected = ch.to_digit(10).unwrap() as u8;
            assert_eq!(m.get(x as i32, y as i32), expected, "cell ({}, {})", x, y);
        }
    }
}

#[test]
fn get_outside_the_grid_is_a_wall() {
    let m = LevelMap::brain_level();
    assert_eq!(m.get(-1, 5), 1);
    assert_eq!(m.get(5, -1), 1);
    assert_eq!(m.get(26, 0), 1);
    assert_eq!(m.get(0, 18), 1);
    assert_eq!(m.get(i32::MIN, i32::MAX), 1);
    assert_eq!(m.get(3, 2), 0);
    assert_eq!(m.get(5, 3), 2);
    assert_eq!(m.get(10, 4), 3);
    assert_eq!(m.get(18, 5), 4);
    assert_eq!(m.get(6, 10), 5);
    assert_eq!(m.get(14, 11), 6);
}

#[test]
fn landmarks_are_on_the_floor() {
    let m = LevelMap::brain_level();
    assert_eq!(m.spawn_cell(), (3, 2));
    assert_eq!(m.goal_cell(), (22, 15));
    assert_eq!(m.target_cell(), (13, 8));
    for (x, y) in [m.spawn_cell(), m.goal_cell(), m.target_cell()] {
        assert_eq!(m.get(x, y), 0);
    }
}

#[test]
fn floor_is_one_connected_region() {
    let m = LevelMap::brain_level();
    let (sx, sy) = m.spawn_cell();
    let mut seen = vec![false; 26 * 18];
    let mut stack = vec![(sx, sy)];
    seen[(sy * 26 + sx) as usize] = true;
    while let Some((x, y)) = stack.pop() {
        for (nx, ny) in [(x + 1, y), (x - 1, y), (x, y + 1), (x, y - 1)] {
            if m.get(nx, ny) == 0 && !seen[(ny * 26 + nx) as usize] {
                seen[(ny * 26 + nx) as usize] = true;
                stack.push((nx, ny));
            }
        }
    }
    let mut floor = 0;
    for y in 0..18 {
        for x in 0..26 {
            if m.get(x, y) == 0 {
                floor += 1;
                assert!(seen[(y * 26 + x) as usize], "floor cell ({}, {}) unreachable", x, y);
            }
        }
    }
    assert!(floor > 0);
    let (gx, gy) = m.goal_cell();
    assert!(seen[(gy * 26 + gx) as usize]);
}

#[test]
fn walk_along_x_stops_at_the_border() {
    let m = LevelMap::brain_level();
    let steps = vec![false; 256];
    let hit = walk_ray(&m, 3, 2, 1, 1, &steps);
    assert_eq!((hit.map_x, hit.map_y, hit.side_is_y, hit.wall_type), (25, 2, false, 1));
    let hit = walk_ray(&m, 3, 2, -1, 1, &steps);
    assert_eq!((hit.map_x, hit.map_y, hit.side_is_y, hit.wall_type), (0, 2, false, 1));
}

#[test]
fn walk_along_y_meets_a_block() {
    let m = LevelMap::brain_level();
    let steps = vec![true; 256];
    let hit = walk_ray(&m, 5, 1, 1, 1, &steps);
    assert_eq!((hit.map_x, hit.map_y, hit.side_is_y, hit.wall_type), (5, 3, true, 2));
    let hit = walk_ray(&m, 5, 1, 1, -1, &steps);
    assert_eq!((hit.map_x, hit.map_y, hit.side_is_y, hit.wall_type), (5, 0, true, 1));
}

#[test]
fn walk_with_mixed_steps() {
    let m = LevelMap::brain_level();
    // x, y, x, y from (2, 1): (3,1) (3,2) (4,2) (4,3) -> block of type 2 at (4,3)
    let steps = [false, true, false, true, false];
    let hit = walk_ray(&m, 2, 1, 1, 1, &steps);
    assert_eq!((hit.map_x, hit.map_y, hit.side_is_y, hit.wall_type), (4, 3, true, 2));
}

#[test]
fn walk_without_steps_or_wall_reports_no_wall() {
    let m = LevelMap::brain_level();
    let hit = walk_ray(&m, 3, 2, 1, 1, &[]);
    assert_eq!((hit.map_x, hit.map_y, hit.side_is_y, hit.wall_type), (3, 2, false, 0));
    let hit = walk_ray(&m, 3, 2, 1, 1, &[false, false]);
    assert_eq!((hit.map_x, hit.map_y, hit.side_is_y, hit.wall_type), (5, 2, false, 0));
    let hit = walk_ray(&m, 3, 2, 1, 1, &[false, true]);
    assert_eq!((hit.map_x, hit.map_y, hit.side_is_y, hit.wall_type), (4, 3, true, 2));
}

#[test]
fn every_ray_from_the_floor_hits_a_wall() {
    let m = LevelMap::brain_level();
    let mut seed: u32 = 12345;
    for y in 0..18 {
        for x in 0..26 {
            if m.get(x, y) != 0 {
                continue;
            }
            for dir in 0..4 {
                let sx = if dir & 1 == 0 { 1 } else { -1 };
                let sy = if dir & 2 == 0 { 1 } else { -1 };
                let mut steps = Vec::new();
                for _ in 0..(26 + 18) {
                    seed = seed.wrapping_mul(1103515245).wrapping_add(12345);
                    steps.push((seed >> 16) & 1 == 1);
                }
                let hit = walk_ray(&m, x, y, sx, sy, &steps);
                assert!(hit.wall_type >= 1 && hit.wall_type <= 6);
            }
        }
    }
}

#[test]
fn arena_uses_the_six_wall_types() {
    let m = LevelMap::brain_level();
    let mut seen = [false; 7];
    for y in -2..20 {
        for x in -2..28 {
            let c = m.get(x, y);
            assert!(c <= 6);
            seen[c as usize] = true;
        }
    }
    assert!(seen.iter().all(|&s| s));
}
