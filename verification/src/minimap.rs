//! The minimap in the top-right corner of the screen: the level at six pixels per
//! cell, the goal and player markers, the view direction and a white frame.
use vstd::prelude::*;
use crate::canvas::{Shape, draw_shape, fill_rect, lemma_paint_ext, paint, put_pixel, point_layer, rect_layer, shape_layer};
use crate::map::LevelMap;

verus! {

/// Screen pixels per map cell on the minimap.
pub const CELL_PX: usize = 6;

/// Distance in pixels from the minimap to the top and right edges of the screen.
pub const MARGIN: usize = 12;

/// The minimap colour of a wall type.
pub open spec fn wall_color(cell: u8) -> u32 {
    if cell == 1 {
        0xFF5544
    } else if cell == 2 {
        0x33DD55
    } else if cell == 3 {
        0x2299FF
    } else if cell == 4 {
        0xBB44DD
    } else if cell == 5 {
        0xEEDD22
    } else if cell == 6 {
        0x55EEEE
    } else {
        0xFFFFFF
    }
}

/// The colour of the minimap background (floor cells).
pub open spec fn floor_color() -> u32 {
    0x101018
}

/// The left edge of the minimap: `MARGIN` pixels from the right edge of the screen,
/// or the left edge of the screen when the map does not fit.
pub open spec fn minimap_origin_x(screen_w: int, map_width: int) -> int {
    if screen_w > map_width * 6 + 12 {
        screen_w - (map_width * 6 + 12)
    } else {
        0
    }
}

/// The level drawn from `(ox, oy)` at six pixels per cell: floor cells in the
/// background colour, wall cells in their wall colour.
pub open spec fn grid_layer(map: LevelMap, ox: int, oy: int) -> spec_fn(int, int) -> Option<u32> {
    |x: int, y: int|
        if ox <= x < ox + map.spec_width() * 6 && oy <= y < oy + map.spec_height() * 6 {
            let cell = map.spec_get((x - ox) / 6, (y - oy) / 6);
            if cell == 0 {
                Some(floor_color())
            } else {
                Some(wall_color(cell))
            }
        } else {
            None
        }
}

/// The filled disc of radius `r` around `(cx, cy)`, scanned over the square of side
/// `2r + 1` (so nothing for a negative radius).
pub open spec fn disc_layer(cx: int, cy: int, r: int, color: u32) -> spec_fn(int, int) -> Option<u32> {
    |x: int, y: int|
        if -r <= x - cx <= r && -r <= y - cy <= r && (x - cx) * (x - cx) + (y - cy) * (y - cy) <= r
            * r {
            Some(color)
        } else {
            None
        }
}

/// The points `(px + offsets[i].0, py + offsets[i].1)`.
pub open spec fn points_layer(px: int, py: int, offsets: Seq<(i32, i32)>, color: u32) -> spec_fn(
    int,
    int,
) -> Option<u32> {
    |x: int, y: int|
        if exists|i: int| 0 <= i < offsets.len() && x == px + offsets[i].0 && y == py + offsets[i].1 {
            Some(color)
        } else {
            None
        }
}

/// Where the markers go, in minimap pixels from the minimap's top-left corner (a
/// world position times `CELL_PX`, truncated).
pub struct MinimapMarkers {
    /// Centre of the goal marker.
    pub goal_x: i32,
    pub goal_y: i32,
    /// Radius of the goal marker (it pulses between 3 and 6).
    pub goal_radius: i32,
    /// Centre of the player marker.
    pub player_x: i32,
    pub player_y: i32,
    /// The points of the view-direction line, relative to the player marker.
    pub heading: Vec<(i32, i32)>,
}

/// The level grid as a drawable shape.
struct MinimapGrid<'a> {
    map: &'a LevelMap,
    ox: i32,
    oy: i32,
}

impl<'a> Shape for MinimapGrid<'a> {
    closed spec fn inv(&self) -> bool {
        &&& 0 <= self.ox
        &&& 0 <= self.oy
        &&& self.ox + self.map.spec_width() * 6 <= i32::MAX
        &&& self.oy + self.map.spec_height() * 6 <= i32::MAX
    }

    closed spec fn spec_at(&self, x: int, y: int) -> Option<u32> {
        grid_layer(*self.map, self.ox as int, self.oy as int)(x, y)
    }

    closed spec fn spec_bounds(&self) -> (int, int, int, int) {
        (
            self.ox as int,
            self.oy as int,
            self.ox + self.map.spec_width() * 6,
            self.oy + self.map.spec_height() * 6,
        )
    }

    proof fn lemma_outside(&self, x: int, y: int) {
    }

    fn bounds(&self) -> (r: (i32, i32, i32, i32)) {
        let xe = self.ox + (self.map.width() * 6) as i32;
        let ye = self.oy + (self.map.height() * 6) as i32;
        (self.ox, self.oy, xe, ye)
    }

    fn at(&self, x: i32, y: i32) -> (c: Option<u32>) {
        let cell = self.map.get((x - self.ox) / 6, (y - self.oy) / 6);
        if cell == 0 {
            Some(0x101018)
        } else if cell == 1 {
            Some(0xFF5544)
        } else if cell == 2 {
            Some(0x33DD55)
        } else if cell == 3 {
            Some(0x2299FF)
        } else if cell == 4 {
            Some(0xBB44DD)
        } else if cell == 5 {
            Some(0xEEDD22)
        } else if cell == 6 {
            Some(0x55EEEE)
        } else {
            Some(0xFFFFFF)
        }
    }
}

/// A filled disc as a drawable shape.
struct Disc {
    cx: i32,
    cy: i32,
    r: i32,
    color: u32,
}

impl Shape for Disc {
    closed spec fn inv(&self) -> bool {
        &&& -32767 <= self.r <= 32767
        &&& i32::MIN <= self.cx - self.r
        &&& self.cx + self.r + 1 <= i32::MAX
        &&& i32::MIN <= self.cy - self.r
        &&& self.cy + self.r + 1 <= i32::MAX
    }

    closed spec fn spec_at(&self, x: int, y: int) -> Option<u32> {
        disc_layer(self.cx as int, self.cy as int, self.r as int, self.color)(x, y)
    }

    closed spec fn spec_bounds(&self) -> (int, int, int, int) {
        if self.r >= 0 {
            (self.cx - self.r, self.cy - self.r, self.cx + self.r + 1, self.cy + self.r + 1)
        } else {
            (self.cx as int, self.cy as int, self.cx as int, self.cy as int)
        }
    }

    proof fn lemma_outside(&self, x: int, y: int) {
    }

    fn bounds(&self) -> (r: (i32, i32, i32, i32)) {
        if self.r >= 0 {
            (self.cx - self.r, self.cy - self.r, self.cx + self.r + 1, self.cy + self.r + 1)
        } else {
            (self.cx, self.cy, self.cx, self.cy)
        }
    }

    fn at(&self, x: i32, y: i32) -> (c: Option<u32>) {
        let dx = x as i64 - self.cx as i64;
        let dy = y as i64 - self.cy as i64;
        let r = self.r as i64;
        proof {
            assert(dx * dx <= r * r) by (nonlinear_arith)
                requires
                    -r <= dx <= r,
            ;
            assert(dy * dy <= r * r) by (nonlinear_arith)
                requires
                    -r <= dy <= r,
            ;
            assert(r * r <= 32767 * 32767) by (nonlinear_arith)
                requires
                    -32767 <= r <= 32767,
            ;
            assert(0 <= dx * dx) by (nonlinear_arith);
            assert(0 <= dy * dy) by (nonlinear_arith);
        }
        if dx * dx + dy * dy <= r * r {
            Some(self.color)
        } else {
            None
        }
    }
}

/// What the markers need to stay in machine integers once placed on the minimap.
pub open spec fn markers_fit(ox: int, oy: int, m: MinimapMarkers) -> bool {
    &&& -32767 <= m.goal_radius <= 32767
    &&& i32::MIN <= ox + m.goal_x <= i32::MAX
    &&& i32::MIN <= oy + m.goal_y <= i32::MAX
    &&& i32::MIN <= ox + m.goal_x - m.goal_radius
    &&& ox + m.goal_x + m.goal_radius + 1 <= i32::MAX
    &&& i32::MIN <= oy + m.goal_y - m.goal_radius
    &&& oy + m.goal_y + m.goal_radius + 1 <= i32::MAX
    &&& i32::MIN <= ox + m.player_x - 2
    &&& ox + m.player_x + 3 <= i32::MAX
    &&& i32::MIN <= oy + m.player_y - 2
    &&& oy + m.player_y + 3 <= i32::MAX
    &&& forall|i: int|
        0 <= i < m.heading@.len() ==> i32::MIN <= ox + m.player_x + (#[trigger] m.heading@[i]).0
            <= i32::MAX && i32::MIN <= oy + m.player_y + m.heading@[i].1 <= i32::MAX
}

/// The screen after the minimap is drawn on `old`, in drawing order: the level grid,
/// the goal disc (yellow), the player's 5x5 square (white), the view-direction points
/// (magenta), then the white frame around the grid (its four sides, corners left out).
pub open spec fn minimap_frame(old: Seq<u32>, w: int, h: int, map: LevelMap, m: MinimapMarkers) -> Seq<u32> {
    let ox = minimap_origin_x(w, map.spec_width() as int);
    let oy = MARGIN as int;
    let mw = map.spec_width() * 6;
    let mh = map.spec_height() * 6;
    let s1 = paint(old, w, h, grid_layer(map, ox, oy));
    let s2 = paint(s1, w, h, disc_layer(ox + m.goal_x, oy + m.goal_y, m.goal_radius as int, 0xFFEE00));
    let s3 = paint(s2, w, h, rect_layer(ox + m.player_x - 2, oy + m.player_y - 2, 5, 5, 0xFFFFFF));
    let s4 = paint(s3, w, h, points_layer(ox + m.player_x, oy + m.player_y, m.heading@, 0xFF00FF));
    let s5 = paint(s4, w, h, rect_layer(ox, oy - 1, mw, 1, 0xFFFFFF));
    let s6 = paint(s5, w, h, rect_layer(ox, oy + mh, mw, 1, 0xFFFFFF));
    let s7 = paint(s6, w, h, rect_layer(ox - 1, oy, 1, mh, 0xFFFFFF));
    paint(s7, w, h, rect_layer(ox + mw, oy, 1, mh, 0xFFFFFF))
}

/// Draws the minimap in the top-right corner of the screen (see `minimap_frame`).
pub fn draw_minimap(
    buffer: &mut [u32],
    screen_w: usize,
    screen_h: usize,
    map: &LevelMap,
    markers: &MinimapMarkers,
)
    requires
        screen_w * screen_h <= old(buffer)@.len(),
        screen_w <= i32::MAX,
        map.spec_width() * 6 + 13 <= i32::MAX,
        map.spec_height() * 6 + 13 <= i32::MAX,
        markers_fit(minimap_origin_x(screen_w as int, map.spec_width() as int), MARGIN as int, *markers),
    ensures
        final(buffer)@ == minimap_frame(old(buffer)@, screen_w as int, screen_h as int, *map, *markers),
{
    let ghost w = screen_w as int;
    let ghost h = screen_h as int;
    let ghost old_buf = buffer@;
    let map_px_w = map.width() * CELL_PX;
    let map_px_h = map.height() * CELL_PX;
    let origin_x: i32 = if screen_w > map_px_w + MARGIN {
        (screen_w - (map_px_w + MARGIN)) as i32
    } else {
        0
    };
    let origin_y: i32 = MARGIN as i32;
    let ghost ox = origin_x as int;
    let ghost oy = origin_y as int;
    assert(ox == minimap_origin_x(w, map.spec_width() as int));

    let grid = MinimapGrid { map, ox: origin_x, oy: origin_y };
    draw_shape(buffer, screen_w, screen_h, &grid);
    proof {
        lemma_paint_ext(old_buf, w, h, shape_layer(&grid), grid_layer(*map, ox, oy));
    }
    let ghost s1 = buffer@;

    let disc = Disc {
        cx: origin_x + markers.goal_x,
        cy: origin_y + markers.goal_y,
        r: markers.goal_radius,
        color: 0xFFEE00,
    };
    draw_shape(buffer, screen_w, screen_h, &disc);
    proof {
        lemma_paint_ext(
            s1,
            w,
            h,
            shape_layer(&disc),
            disc_layer(ox + markers.goal_x, oy + markers.goal_y, markers.goal_radius as int, 0xFFEE00),
        );
    }

    let px = origin_x + markers.player_x;
    let py = origin_y + markers.player_y;
    fill_rect(buffer, screen_w, screen_h, px - 2, py - 2, 5, 5, 0xFFFFFF);
    let ghost s3 = buffer@;

    let n = markers.heading.len();
    let mut i: usize = 0;
    proof {
        crate::canvas::lemma_paint_nothing(
            s3,
            w,
            h,
            points_layer(px as int, py as int, markers.heading@.take(0), 0xFF00FF),
        );
    }
    while i < n
        invariant
            n == markers.heading@.len(),
            0 <= i <= n,
            w == screen_w,
            h == screen_h,
            screen_w * screen_h <= s3.len(),
            px == ox + markers.player_x,
            py == oy + markers.player_y,
            markers_fit(ox, oy, *markers),
            buffer@ == paint(s3, w, h, points_layer(px as int, py as int, markers.heading@.take(i as int), 0xFF00FF)),
        decreases n - i,
    {
        let (hx, hy) = markers.heading[i];
        assert(markers.heading@[i as int] == (hx, hy));
        let ghost before = buffer@;
        put_pixel(buffer, screen_w, screen_h, px + hx, py + hy, 0xFF00FF);
        proof {
            let a = points_layer(px as int, py as int, markers.heading@.take(i as int), 0xFF00FF);
            let b = points_layer(px as int, py as int, markers.heading@.take(i + 1), 0xFF00FF);
            let p = point_layer(px + hx, py + hy, 0xFF00FF);
            crate::canvas::lemma_paint_twice(s3, w, h, a, p);
            assert forall|x: int, y: int| crate::canvas::on_screen(w, h, x, y) implies #[trigger] crate::canvas::over(p, a)(x, y) == b(x, y) by {
                let t = markers.heading@.take(i + 1);
                if x == px + hx && y == py + hy {
                    assert(t[i as int] == (hx, hy));
                    assert(0 <= i < t.len() && x == px + t[i as int].0 && y == py + t[i as int].1);
                } else {
                    if exists|j: int| 0 <= j < t.len() && x == px + t[j].0 && y == py + t[j].1 {
                        let j = choose|j: int| 0 <= j < t.len() && x == px + t[j].0 && y == py + t[j].1;
                        assert(j != i);
                        assert(markers.heading@.take(i as int)[j] == t[j]);
                    }
                    if exists|j: int| 0 <= j < i && x == px + markers.heading@.take(i as int)[j].0 && y == py + markers.heading@.take(i as int)[j].1 {
                        let j = choose|j: int| 0 <= j < i && x == px + markers.heading@.take(i as int)[j].0 && y == py + markers.heading@.take(i as int)[j].1;
                        assert(markers.heading@.take(i as int)[j] == t[j]);
                    }
                }
            }
            lemma_paint_ext(s3, w, h, crate::canvas::over(p, a), b);
        }
        i = i + 1;
    }
    assert(markers.heading@.take(n as int) =~= markers.heading@);

    let mw = map_px_w as i32;
    let mh = map_px_h as i32;
    fill_rect(buffer, screen_w, screen_h, origin_x, origin_y - 1, mw, 1, 0xFFFFFF);
    fill_rect(buffer, screen_w, screen_h, origin_x, origin_y + mh, mw, 1, 0xFFFFFF);
    fill_rect(buffer, screen_w, screen_h, origin_x - 1, origin_y, 1, mh, 0xFFFFFF);
    fill_rect(buffer, screen_w, screen_h, origin_x + mw, origin_y, 1, mh, 0xFFFFFF);
}

} // verus!
