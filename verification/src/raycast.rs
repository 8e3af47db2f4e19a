//! The grid half of the DDA ray caster: from the cell the ray starts in, step one
//! cell at a time, along x or along y as the ray's geometry dictates, until a wall
//! cell is entered.
use vstd::prelude::*;
use crate::map::LevelMap;

verus! {

/// Where the cell walk of a ray stopped.
pub struct CellHit {
    /// The cell the walk stopped in.
    pub map_x: i32,
    pub map_y: i32,
    /// Whether the last step crossed a horizontal grid line (a step along y).
    pub side_is_y: bool,
    /// The wall type of the cell that was hit, `0` when no wall was met.
    pub wall_type: u8,
}

/// The walk from cell `(x, y)`: step `i` moves along y by `dy` when `y_steps[i]` holds
/// and along x by `dx` otherwise, and the walk stops on the first cell with a non-zero
/// value. The result is the final cell, whether the last step was along y (`side`
/// before any step), and the value of the cell hit (`0` when the steps ran out).
pub open spec fn walk_from(
    grid: spec_fn(int, int) -> u8,
    x: int,
    y: int,
    dx: int,
    dy: int,
    y_steps: Seq<bool>,
    side: bool,
) -> (int, int, bool, u8)
    decreases y_steps.len(),
{
    if y_steps.len() == 0 {
        (x, y, side, 0)
    } else {
        let nx = if y_steps[0] {
            x
        } else {
            x + dx
        };
        let ny = if y_steps[0] {
            y + dy
        } else {
            y
        };
        if grid(nx, ny) != 0 {
            (nx, ny, y_steps[0], grid(nx, ny))
        } else {
            walk_from(grid, nx, ny, dx, dy, y_steps.drop_first(), y_steps[0])
        }
    }
}

/// How many of the steps `s` go along y.
pub open spec fn y_count(s: Seq<bool>) -> nat
    decreases s.len(),
{
    if s.len() == 0 {
        0
    } else {
        y_count(s.drop_last()) + if s.last() {
            1nat
        } else {
            0nat
        }
    }
}

/// `x` moved `n` cells in direction `d` (`d > 0` for growing coordinates).
pub open spec fn moved(x: int, d: int, n: int) -> int {
    if d > 0 {
        x + n
    } else {
        x - n
    }
}

/// The cell reached from `(x, y)` after the first `k` of the steps `y_steps`: each
/// step along y moves by `dy` and every other step moves along x by `dx`.
pub open spec fn cell_after(x: int, y: int, dx: int, dy: int, y_steps: Seq<bool>, k: int) -> (int, int) {
    let ys = y_count(y_steps.take(k)) as int;
    (moved(x, dx, k - ys), moved(y, dy, ys))
}

/// Counting the y steps of the first `k` steps: the first step, then the first `k - 1`
/// of the rest.
proof fn lemma_y_count_front(s: Seq<bool>, k: int)
    requires
        1 <= k <= s.len(),
    ensures
        y_count(s.take(k)) == y_count(s.drop_first().take(k - 1)) + if s[0] {
            1nat
        } else {
            0nat
        },
    decreases k,
{
    assert(s.take(k).drop_last() =~= s.take(k - 1));
    assert(s.take(k).last() == s[k - 1]);
    assert(y_count(s.take(k)) == y_count(s.take(k - 1)) + if s[k - 1] {
        1nat
    } else {
        0nat
    });
    if k == 1 {
        assert(y_count(s.take(0)) == 0);
        assert(y_count(s.drop_first().take(0)) == 0);
    } else {
        lemma_y_count_front(s, k - 1);
        assert(s.drop_first().take(k - 1).drop_last() =~= s.drop_first().take(k - 2));
        assert(s.drop_first().take(k - 1).last() == s[k - 1]);
    }
}

/// Where a walk stops, in terms of its steps alone: after some `k` of them, on the
/// cell those `k` steps lead to, with the side flag set by the axis of step `k`
/// (the last one taken), every cell passed before it empty, and either a wall found
/// there or every step used up.
pub proof fn lemma_walk_stops_after_last_step(
    grid: spec_fn(int, int) -> u8,
    x: int,
    y: int,
    dx: int,
    dy: int,
    y_steps: Seq<bool>,
    side: bool,
)
    requires
        dx == 1 || dx == -1,
        dy == 1 || dy == -1,
        y_steps.len() > 0,
    ensures
        exists|k: int|
            1 <= k <= y_steps.len() && #[trigger] cell_after(x, y, dx, dy, y_steps, k) == (
                walk_from(grid, x, y, dx, dy, y_steps, side).0,
                walk_from(grid, x, y, dx, dy, y_steps, side).1,
            ) && walk_from(grid, x, y, dx, dy, y_steps, side).2 == y_steps[k - 1] && walk_from(
                grid,
                x,
                y,
                dx,
                dy,
                y_steps,
                side,
            ).3 == grid(cell_after(x, y, dx, dy, y_steps, k).0, cell_after(x, y, dx, dy, y_steps, k).1)
                && (forall|j: int|
                1 <= j < k ==> {
                    let c = #[trigger] cell_after(x, y, dx, dy, y_steps, j);
                    grid(c.0, c.1) == 0
                }) && (walk_from(grid, x, y, dx, dy, y_steps, side).3 != 0 || k == y_steps.len()),
    decreases y_steps.len(),
{
    let r = walk_from(grid, x, y, dx, dy, y_steps, side);
    let nx = if y_steps[0] {
        x
    } else {
        x + dx
    };
    let ny = if y_steps[0] {
        y + dy
    } else {
        y
    };
    lemma_y_count_front(y_steps, 1);
    assert(y_steps.drop_first().take(0).len() == 0);
    assert(cell_after(x, y, dx, dy, y_steps, 1) == (nx, ny));
    let rest = y_steps.drop_first();
    if grid(nx, ny) != 0 || rest.len() == 0 {
        assert(rest.len() == 0 ==> walk_from(grid, nx, ny, dx, dy, rest, y_steps[0]) == (nx, ny, y_steps[0], 0u8));
        assert(r.2 == y_steps[0 + 1 - 1]);
    } else {
        lemma_walk_stops_after_last_step(grid, nx, ny, dx, dy, rest, y_steps[0]);
        let k1 = choose|k: int|
            1 <= k <= rest.len() && #[trigger] cell_after(nx, ny, dx, dy, rest, k) == (r.0, r.1)
                && r.2 == rest[k - 1] && r.3 == grid(
                cell_after(nx, ny, dx, dy, rest, k).0,
                cell_after(nx, ny, dx, dy, rest, k).1,
            ) && (forall|j: int|
                1 <= j < k ==> {
                    let c = #[trigger] cell_after(nx, ny, dx, dy, rest, j);
                    grid(c.0, c.1) == 0
                }) && (r.3 != 0 || k == rest.len());
        assert forall|j: int| 1 <= j <= k1 + 1 implies #[trigger] cell_after(x, y, dx, dy, y_steps, j)
            == (if j == 1 {
            (nx, ny)
        } else {
            cell_after(nx, ny, dx, dy, rest, j - 1)
        }) by {
            lemma_y_count_front(y_steps, j);
        }
        assert(r.2 == y_steps[(k1 + 1) - 1]);
        assert(cell_after(x, y, dx, dy, y_steps, k1 + 1) == (r.0, r.1));
        assert forall|j: int| 1 <= j < k1 + 1 implies {
            let c = #[trigger] cell_after(x, y, dx, dy, y_steps, j);
            grid(c.0, c.1) == 0
        } by {
            if j > 1 {
                assert(cell_after(nx, ny, dx, dy, rest, j - 1) == cell_after(x, y, dx, dy, y_steps, j));
            }
        }
    }
}

/// How many cells a walk with step `d` can take from `x` before leaving `[0, n)`.
pub open spec fn room(x: int, d: int, n: int) -> int {
    if d > 0 {
        n - 1 - x
    } else {
        x
    }
}

/// A walk that starts inside a grid whose outside is all wall and meets no wall
/// takes at most as many steps as there are cells between its start and the border.
pub proof fn lemma_walk_bounded(
    grid: spec_fn(int, int) -> u8,
    w: int,
    h: int,
    x: int,
    y: int,
    dx: int,
    dy: int,
    y_steps: Seq<bool>,
    side: bool,
)
    requires
        0 <= x < w,
        0 <= y < h,
        dx == 1 || dx == -1,
        dy == 1 || dy == -1,
        forall|cx: int, cy: int| !(0 <= cx < w && 0 <= cy < h) ==> #[trigger] grid(cx, cy) != 0,
        walk_from(grid, x, y, dx, dy, y_steps, side).3 == 0,
    ensures
        y_steps.len() <= room(x, dx, w) + room(y, dy, h),
    decreases y_steps.len(),
{
    if y_steps.len() > 0 {
        let nx = if y_steps[0] {
            x
        } else {
            x + dx
        };
        let ny = if y_steps[0] {
            y + dy
        } else {
            y
        };
        assert(grid(nx, ny) == 0);
        lemma_walk_bounded(grid, w, h, nx, ny, dx, dy, y_steps.drop_first(), y_steps[0]);
    }
}

/// A ray cast from a cell inside the level always hits a wall once it is given
/// `width + height` steps: the level's outside counts as wall, so a ray never
/// runs off the world.
pub proof fn lemma_ray_always_hits(
    map: LevelMap,
    x: int,
    y: int,
    dx: int,
    dy: int,
    y_steps: Seq<bool>,
)
    requires
        0 <= x < map.spec_width(),
        0 <= y < map.spec_height(),
        dx == 1 || dx == -1,
        dy == 1 || dy == -1,
        y_steps.len() >= map.spec_width() + map.spec_height(),
    ensures
        walk_from(map.grid(), x, y, dx, dy, y_steps, false).3 != 0,
{
    let g = map.grid();
    if walk_from(g, x, y, dx, dy, y_steps, false).3 == 0 {
        assert forall|cx: int, cy: int|
            !(0 <= cx < map.spec_width() && 0 <= cy < map.spec_height()) implies #[trigger] g(cx, cy) != 0 by {}
        lemma_walk_bounded(g, map.spec_width() as int, map.spec_height() as int, x, y, dx, dy, y_steps, false);
    }
}

/// Walks a ray through the grid from cell `(start_x, start_y)`: step `i` moves one
/// cell along y (by `step_y`) when `y_steps[i]` holds and along x (by `step_x`)
/// otherwise, and the walk stops on the first wall cell, or when the steps run out
/// (then `wall_type` is `0`). Cells outside the map count as walls.
pub fn walk_ray(
    map: &LevelMap,
    start_x: i32,
    start_y: i32,
    step_x: i32,
    step_y: i32,
    y_steps: &[bool],
) -> (hit: CellHit)
    requires
        step_x == 1 || step_x == -1,
        step_y == 1 || step_y == -1,
        i32::MIN + y_steps@.len() <= start_x <= i32::MAX - y_steps@.len(),
        i32::MIN + y_steps@.len() <= start_y <= i32::MAX - y_steps@.len(),
    ensures
        (hit.map_x as int, hit.map_y as int, hit.side_is_y, hit.wall_type) == walk_from(
            map.grid(),
            start_x as int,
            start_y as int,
            step_x as int,
            step_y as int,
            y_steps@,
            false,
        ),
        y_steps@.len() == 0 ==> hit.map_x == start_x && hit.map_y == start_y && !hit.side_is_y
            && hit.wall_type == 0,
        y_steps@.len() > 0 ==> exists|k: int|
            1 <= k <= y_steps@.len() && #[trigger] cell_after(
                start_x as int,
                start_y as int,
                step_x as int,
                step_y as int,
                y_steps@,
                k,
            ) == (hit.map_x as int, hit.map_y as int) && hit.side_is_y == y_steps@[k - 1]
                && hit.wall_type == map.spec_get(hit.map_x as int, hit.map_y as int) && (forall|j: int|
                1 <= j < k ==> {
                    let c = #[trigger] cell_after(
                        start_x as int,
                        start_y as int,
                        step_x as int,
                        step_y as int,
                        y_steps@,
                        j,
                    );
                    map.spec_get(c.0, c.1) == 0
                }) && (hit.wall_type != 0 || k == y_steps@.len()),
{
    let ghost g = map.grid();
    let ghost target = walk_from(g, start_x as int, start_y as int, step_x as int, step_y as int, y_steps@, false);
    let mut map_x = start_x;
    let mut map_y = start_y;
    let mut side_is_y = false;
    let mut i: usize = 0;
    assert(y_steps@.skip(0) =~= y_steps@);
    while i < y_steps.len()
        invariant
            g == map.grid(),
            target == walk_from(g, start_x as int, start_y as int, step_x as int, step_y as int, y_steps@, false),
            step_x == 1 || step_x == -1,
            step_y == 1 || step_y == -1,
            i32::MIN + y_steps@.len() <= start_x <= i32::MAX - y_steps@.len(),
            i32::MIN + y_steps@.len() <= start_y <= i32::MAX - y_steps@.len(),
            0 <= i <= y_steps@.len(),
            start_x - i <= map_x <= start_x + i,
            start_y - i <= map_y <= start_y + i,
            walk_from(g, map_x as int, map_y as int, step_x as int, step_y as int, y_steps@.skip(i as int), side_is_y) == target,
            cell_after(start_x as int, start_y as int, step_x as int, step_y as int, y_steps@, i as int)
                == (map_x as int, map_y as int),
            i == 0 ==> !side_is_y,
            i > 0 ==> side_is_y == y_steps@[i - 1],
            forall|j: int|
                1 <= j <= i ==> {
                    let c = #[trigger] cell_after(
                        start_x as int,
                        start_y as int,
                        step_x as int,
                        step_y as int,
                        y_steps@,
                        j,
                    );
                    map.spec_get(c.0, c.1) == 0
                },
        decreases y_steps@.len() - i,
    {
        let ghost sx = start_x as int;
        let ghost sy = start_y as int;
        assert(y_steps@.take(i + 1).drop_last() =~= y_steps@.take(i as int));
        assert(y_steps@.take(i + 1).last() == y_steps@[i as int]);
        assert(y_count(y_steps@.take(i + 1)) == y_count(y_steps@.take(i as int)) + if y_steps@[i as int] {
            1nat
        } else {
            0nat
        });
        let ghost rest = y_steps@.skip(i as int);
        let ghost (px, py, pside) = (map_x as int, map_y as int, side_is_y);
        assert(walk_from(g, px, py, step_x as int, step_y as int, rest, pside) == target);
        assert(rest[0] == y_steps@[i as int]);
        assert(rest.drop_first() =~= y_steps@.skip(i + 1));
        if y_steps[i] {
            map_y = map_y + step_y;
            side_is_y = true;
        } else {
            map_x = map_x + step_x;
            side_is_y = false;
        }
        let cell = map.get(map_x, map_y);
        assert(g(map_x as int, map_y as int) == cell);
        assert(cell_after(sx, sy, step_x as int, step_y as int, y_steps@, i + 1) == (map_x as int, map_y as int));
        if cell != 0 {
            assert(walk_from(g, px, py, step_x as int, step_y as int, rest, pside) == (
                map_x as int,
                map_y as int,
                side_is_y,
                cell,
            ));
            assert(cell_after(sx, sy, step_x as int, step_y as int, y_steps@, i + 1) == (map_x as int, map_y as int));
            return CellHit { map_x, map_y, side_is_y, wall_type: cell };
        }
        i = i + 1;
    }
    assert(y_steps@.skip(i as int).len() == 0);
    assert(cell_after(start_x as int, start_y as int, step_x as int, step_y as int, y_steps@, i as int) == (map_x as int, map_y as int));
    CellHit { map_x, map_y, side_is_y, wall_type: 0 }
}

} // verus!
