//! The level: a rectangular grid of cells, `0` for walkable floor and `1..=6` for
//! the wall types, each with its own texture.
use vstd::prelude::*;
use crate::font::text_chars;

verus! {

/// The rows of the arena level, top first: an open floor inside a border of
/// walls, with blocks of coloured walls floating on it.
pub open spec fn brain_rows() -> Seq<Seq<char>> {
    seq![
        "11111111111111111111111111"@,
        "10000000000000000000000001"@,
        "10000000000000000000000001"@,
        "10022220003333000444400001"@,
        "10022220003333000444400001"@,
        "10022220003333000444400001"@,
        "10000000000000000000000001"@,
        "10000000000000000000000001"@,
        "10000000000000000000000001"@,
        "10000555500006666022220001"@,
        "10000555500006666022220001"@,
        "10000555500006666022220001"@,
        "10000000000000000000000001"@,
        "10000000033330044440000001"@,
        "10000000033330044440000001"@,
        "10000000000000000000000001"@,
        "10000000000000000000000001"@,
        "11111111111111111111111111"@,
    ]
}

/// The number a digit character stands for; any other character counts as `0`.
pub open spec fn spec_digit(c: char) -> u8 {
    if '0' <= c <= '9' {
        (c as u32 - '0' as u32) as u8
    } else {
        0
    }
}

/// The cell `(x, y)` of the arena level; outside the grid every cell is a wall (`1`).
pub open spec fn brain_cell(x: int, y: int) -> u8 {
    if 0 <= x < 26 && 0 <= y < 18 {
        spec_digit(brain_rows()[y][x])
    } else {
        1
    }
}

/// The arena level as a function of the cell.
pub open spec fn brain_grid() -> spec_fn(int, int) -> u8 {
    |x: int, y: int| brain_cell(x, y)
}

/// Whether a walk of at most `n` steps between side-adjacent floor cells (value `0`)
/// leads from `(sx, sy)` to `(x, y)`.
pub open spec fn reach_in(grid: spec_fn(int, int) -> u8, sx: int, sy: int, n: nat, x: int, y: int) -> bool
    decreases n,
{
    if n == 0 {
        x == sx && y == sy && grid(x, y) == 0
    } else {
        reach_in(grid, sx, sy, (n - 1) as nat, x, y) || (grid(x, y) == 0 && (reach_in(
            grid,
            sx,
            sy,
            (n - 1) as nat,
            x - 1,
            y,
        ) || reach_in(grid, sx, sy, (n - 1) as nat, x + 1, y) || reach_in(
            grid,
            sx,
            sy,
            (n - 1) as nat,
            x,
            y - 1,
        ) || reach_in(grid, sx, sy, (n - 1) as nat, x, y + 1)))
    }
}

/// Whether the floor cell `(x, y)` can be walked to from `(sx, sy)` without crossing a wall.
pub open spec fn connected(grid: spec_fn(int, int) -> u8, sx: int, sy: int, x: int, y: int) -> bool {
    exists|n: nat| reach_in(grid, sx, sy, n, x, y)
}

/// A floor cell next to a reachable cell is reachable.
pub proof fn lemma_connected_step(
    grid: spec_fn(int, int) -> u8,
    sx: int,
    sy: int,
    x: int,
    y: int,
    x2: int,
    y2: int,
)
    requires
        connected(grid, sx, sy, x, y),
        grid(x2, y2) == 0,
        (x2 == x && (y2 == y + 1 || y2 == y - 1)) || (y2 == y && (x2 == x + 1 || x2 == x - 1)),
    ensures
        connected(grid, sx, sy, x2, y2),
{
    let n = choose|n: nat| reach_in(grid, sx, sy, n, x, y);
    assert(reach_in(grid, sx, sy, n + 1, x2, y2));
}

/// Along a run of floor in one row, every cell is reachable once one of them is.
pub proof fn lemma_row_walk(
    grid: spec_fn(int, int) -> u8,
    sx: int,
    sy: int,
    y: int,
    lo: int,
    hi: int,
    a: int,
    b: int,
)
    requires
        forall|x: int| lo <= x <= hi ==> #[trigger] grid(x, y) == 0,
        lo <= a <= hi,
        lo <= b <= hi,
        connected(grid, sx, sy, a, y),
    ensures
        connected(grid, sx, sy, b, y),
    decreases if a <= b { b - a } else { a - b },
{
    if a < b {
        lemma_connected_step(grid, sx, sy, a, y, a + 1, y);
        lemma_row_walk(grid, sx, sy, y, lo, hi, a + 1, b);
    } else if a > b {
        lemma_connected_step(grid, sx, sy, a, y, a - 1, y);
        lemma_row_walk(grid, sx, sy, y, lo, hi, a - 1, b);
    }
}

/// Along a run of floor in one column, every cell is reachable once one of them is.
pub proof fn lemma_column_walk(
    grid: spec_fn(int, int) -> u8,
    sx: int,
    sy: int,
    x: int,
    lo: int,
    hi: int,
    a: int,
    b: int,
)
    requires
        forall|y: int| lo <= y <= hi ==> #[trigger] grid(x, y) == 0,
        lo <= a <= hi,
        lo <= b <= hi,
        connected(grid, sx, sy, x, a),
    ensures
        connected(grid, sx, sy, x, b),
    decreases if a <= b { b - a } else { a - b },
{
    if a < b {
        lemma_connected_step(grid, sx, sy, x, a, x, a + 1);
        lemma_column_walk(grid, sx, sy, x, lo, hi, a + 1, b);
    } else if a > b {
        lemma_connected_step(grid, sx, sy, x, a, x, a - 1);
        lemma_column_walk(grid, sx, sy, x, lo, hi, a - 1, b);
    }
}

/// The cell the player starts on.
pub open spec fn spawn_cell_spec() -> (int, int) {
    (3, 2)
}

/// The cell whose reaching completes the level.
pub open spec fn goal_cell_spec() -> (int, int) {
    (22, 15)
}

/// The cell the shooting target stands on.
pub open spec fn target_cell_spec() -> (int, int) {
    (13, 8)
}

/// What the rows of the arena level hold: 18 rows of 26 digits from `0` to `6`, a
/// wall border, rows of open floor (1, 2, 6, 7, 8, 12, 15, 16), column 1 open from top
/// to bottom, three bands of rows that repeat one row (3 to 5, 9 to 11, 13 to 14), and
/// a block of each of the wall types 2 to 6.
proof fn lemma_brain_rows()
    ensures
        forall|y: int| 0 <= y < 18 ==> (#[trigger] brain_rows()[y]).len() == 26,
        forall|x: int, y: int| #[trigger] brain_cell(x, y) <= 6,
        forall|x: int, y: int| brain_cell(x, y) == 0 ==> 1 <= x <= 24 && 1 <= y <= 16,
        forall|y: int| 1 <= y <= 16 ==> #[trigger] brain_cell(1, y) == 0,
        forall|x: int| 1 <= x <= 24 ==> #[trigger] brain_cell(x, 1) == 0,
        forall|x: int| 1 <= x <= 24 ==> #[trigger] brain_cell(x, 2) == 0,
        forall|x: int| 1 <= x <= 24 ==> #[trigger] brain_cell(x, 6) == 0,
        forall|x: int| 1 <= x <= 24 ==> #[trigger] brain_cell(x, 7) == 0,
        forall|x: int| 1 <= x <= 24 ==> #[trigger] brain_cell(x, 8) == 0,
        forall|x: int| 1 <= x <= 24 ==> #[trigger] brain_cell(x, 12) == 0,
        forall|x: int| 1 <= x <= 24 ==> #[trigger] brain_cell(x, 15) == 0,
        forall|x: int| 1 <= x <= 24 ==> #[trigger] brain_cell(x, 16) == 0,
        forall|x: int| #[trigger] brain_cell(x, 4) == brain_cell(x, 3),
        forall|x: int| #[trigger] brain_cell(x, 5) == brain_cell(x, 3),
        forall|x: int| #[trigger] brain_cell(x, 10) == brain_cell(x, 9),
        forall|x: int| #[trigger] brain_cell(x, 11) == brain_cell(x, 9),
        forall|x: int| #[trigger] brain_cell(x, 14) == brain_cell(x, 13),
        brain_cell(0, 0) == 1,
        brain_cell(3, 3) == 2,
        brain_cell(10, 3) == 3,
        brain_cell(17, 3) == 4,
        brain_cell(5, 9) == 5,
        brain_cell(13, 9) == 6,
{
    reveal_strlit("11111111111111111111111111");
    reveal_strlit("10000000000000000000000001");
    reveal_strlit("10000000000000000000000001");
    reveal_strlit("10022220003333000444400001");
    reveal_strlit("10022220003333000444400001");
    reveal_strlit("10022220003333000444400001");
    reveal_strlit("10000000000000000000000001");
    reveal_strlit("10000000000000000000000001");
    reveal_strlit("10000000000000000000000001");
    reveal_strlit("10000555500006666022220001");
    reveal_strlit("10000555500006666022220001");
    reveal_strlit("10000555500006666022220001");
    reveal_strlit("10000000000000000000000001");
    reveal_strlit("10000000033330044440000001");
    reveal_strlit("10000000033330044440000001");
    reveal_strlit("10000000000000000000000001");
    reveal_strlit("10000000000000000000000001");
    reveal_strlit("11111111111111111111111111");
    assert forall|x: int, y: int| brain_cell(x, y) == 0 implies 1 <= x <= 24 && 1 <= y <= 16 by {
        if 0 <= x < 26 && 0 <= y < 18 {
            assert(y != 0 && y != 17);
            assert(x != 0 && x != 25);
        }
    }
    assert forall|x: int, y: int| #[trigger] brain_cell(x, y) <= 6 by {
        if 0 <= x < 26 && 0 <= y < 18 {
            assert(brain_rows()[y][x] <= '6');
        }
    }
}

/// The floor of the arena is one connected region: every floor cell can be walked to
/// from the spawn cell.
pub proof fn lemma_brain_floor_connected(x: int, y: int)
    requires
        brain_cell(x, y) == 0,
    ensures
        connected(brain_grid(), spawn_cell_spec().0, spawn_cell_spec().1, x, y),
{
    lemma_brain_rows();
    let g = brain_grid();
    assert(reach_in(g, 3, 2, 0, 3, 2));
    assert(forall|xx: int| 1 <= xx <= 24 ==> #[trigger] g(xx, 2) == 0);
    lemma_row_walk(g, 3, 2, 2, 1, 24, 3, 1);
    assert(forall|yy: int| 1 <= yy <= 16 ==> #[trigger] g(1, yy) == 0);
    if y == 1 || y == 2 || y == 6 || y == 7 || y == 8 || y == 12 || y == 15 || y == 16 {
        lemma_column_walk(g, 3, 2, 1, 1, 16, 2, y);
        assert(forall|xx: int| 1 <= xx <= 24 ==> #[trigger] g(xx, y) == 0);
        lemma_row_walk(g, 3, 2, y, 1, 24, 1, x);
    } else {
        let above = if y <= 5 {
            2int
        } else if y <= 11 {
            8int
        } else {
            12int
        };
        lemma_column_walk(g, 3, 2, 1, 1, 16, 2, above);
        assert(forall|xx: int| 1 <= xx <= 24 ==> #[trigger] g(xx, above) == 0);
        lemma_row_walk(g, 3, 2, above, 1, 24, 1, x);
        assert(g(x, above + 1) == 0);
        lemma_connected_step(g, 3, 2, x, above, x, above + 1);
        if y >= above + 2 {
            assert(g(x, above + 2) == 0);
            lemma_connected_step(g, 3, 2, x, above + 1, x, above + 2);
        }
        if y >= above + 3 {
            assert(g(x, above + 3) == 0);
            lemma_connected_step(g, 3, 2, x, above + 2, x, above + 3);
        }
    }
}

/// The spawn, goal and target cells are floor, and the goal can be walked to from
/// the spawn.
pub proof fn lemma_brain_landmarks()
    ensures
        brain_cell(spawn_cell_spec().0, spawn_cell_spec().1) == 0,
        brain_cell(goal_cell_spec().0, goal_cell_spec().1) == 0,
        brain_cell(target_cell_spec().0, target_cell_spec().1) == 0,
        connected(brain_grid(), spawn_cell_spec().0, spawn_cell_spec().1, goal_cell_spec().0, goal_cell_spec().1),
        connected(brain_grid(), spawn_cell_spec().0, spawn_cell_spec().1, target_cell_spec().0, target_cell_spec().1),
{
    lemma_brain_rows();
    assert(brain_cell(3, 2) == 0);
    assert(brain_cell(22, 15) == 0);
    assert(brain_cell(13, 8) == 0);
    lemma_brain_floor_connected(22, 15);
    lemma_brain_floor_connected(13, 8);
}

/// The arena uses the six wall types: every cell is `0` (floor) or a wall type from
/// `1` to `6`, and each of the six types occurs.
pub proof fn lemma_brain_wall_types()
    ensures
        forall|x: int, y: int| #[trigger] brain_cell(x, y) <= 6,
        brain_cell(0, 0) == 1,
        brain_cell(3, 3) == 2,
        brain_cell(10, 3) == 3,
        brain_cell(17, 3) == 4,
        brain_cell(5, 9) == 5,
        brain_cell(13, 9) == 6,
{
    lemma_brain_rows();
}

/// The number a digit character stands for, `0` for any other character.
fn digit_value(c: char) -> (d: u8)
    ensures
        d == spec_digit(c),
{
    if '0' <= c && c <= '9' {
        (c as u32 - '0' as u32) as u8
    } else {
        0
    }
}

/// The level: `width` x `height` cells, row by row; `0` is walkable floor and
/// `1..=6` are the wall types.
pub struct LevelMap {
    width: usize,
    height: usize,
    cells: Vec<u8>,
}

impl LevelMap {
    /// The cell vector holds exactly `width * height` cells.
    #[verifier::type_invariant]
    spec fn wf(self) -> bool {
        self.cells@.len() == self.width * self.height
    }

    /// The number of columns.
    pub closed spec fn spec_width(&self) -> usize {
        self.width
    }

    /// The number of rows.
    pub closed spec fn spec_height(&self) -> usize {
        self.height
    }

    /// The cells, row by row.
    pub closed spec fn cell_values(&self) -> Seq<u8> {
        self.cells@
    }

    /// The cell at `(x, y)`; every cell outside the grid counts as a wall of type `1`.
    pub open spec fn spec_get(&self, x: int, y: int) -> u8 {
        if 0 <= x < self.spec_width() && 0 <= y < self.spec_height() {
            self.cell_values()[y * self.spec_width() + x]
        } else {
            1
        }
    }

    /// The map as a function of the cell.
    pub open spec fn grid(&self) -> spec_fn(int, int) -> u8 {
        |x: int, y: int| self.spec_get(x, y)
    }

    /// The number of columns.
    pub fn width(&self) -> (w: usize)
        ensures
            w == self.spec_width(),
    {
        self.width
    }

    /// The number of rows.
    pub fn height(&self) -> (h: usize)
        ensures
            h == self.spec_height(),
    {
        self.height
    }

    /// Builds the arena level: an open floor inside a wall border, so that the player
    /// can always move, with blocks of coloured walls floating on it; every floor
    /// cell is reachable from every other (see `lemma_brain_floor_connected`).
    pub fn brain_level() -> (m: LevelMap)
        ensures
            m.spec_width() == 26,
            m.spec_height() == 18,
            forall|x: int, y: int| m.spec_get(x, y) == brain_cell(x, y),
            m.grid() == brain_grid(),
    {
        let raw: [&str; 18] = [
        "11111111111111111111111111",
        "10000000000000000000000001",
        "10000000000000000000000001",
        "10022220003333000444400001",
        "10022220003333000444400001",
        "10022220003333000444400001",
        "10000000000000000000000001",
        "10000000000000000000000001",
        "10000000000000000000000001",
        "10000555500006666022220001",
        "10000555500006666022220001",
        "10000555500006666022220001",
        "10000000000000000000000001",
        "10000000033330044440000001",
        "10000000033330044440000001",
        "10000000000000000000000001",
        "10000000000000000000000001",
        "11111111111111111111111111",
        ];
        proof {
            lemma_brain_rows();
        }
        let height: usize = 18;
        let width: usize = 26;
        let mut cells: Vec<u8> = Vec::new();
        for y in 0..height
            invariant
                height == 18,
                width == 26,
                forall|i: int| 0 <= i < 18 ==> #[trigger] raw@[i]@ == brain_rows()[i],
                forall|i: int| 0 <= i < 18 ==> (#[trigger] brain_rows()[i]).len() == 26,
                cells@.len() == y * 26,
                forall|yy: int, xx: int|
                    0 <= yy < y && 0 <= xx < 26 ==> cells@[yy * 26 + xx] == spec_digit(
                        brain_rows()[yy][xx],
                    ),
        {
            let row = text_chars(raw[y]);
            assert(row@ == brain_rows()[y as int]);
            for x in 0..width
                invariant
                    height == 18,
                    width == 26,
                    0 <= y < 18,
                    row@ == brain_rows()[y as int],
                    row@.len() == 26,
                    forall|i: int| 0 <= i < 18 ==> #[trigger] raw@[i]@ == brain_rows()[i],
                    forall|i: int| 0 <= i < 18 ==> (#[trigger] brain_rows()[i]).len() == 26,
                    cells@.len() == y * 26 + x,
                    forall|yy: int, xx: int|
                        0 <= yy < y && 0 <= xx < 26 ==> cells@[yy * 26 + xx] == spec_digit(
                            brain_rows()[yy][xx],
                        ),
                    forall|xx: int|
                        0 <= xx < x ==> cells@[y * 26 + xx] == spec_digit(brain_rows()[y as int][xx]),
            {
                let d = digit_value(row[x]);
                cells.push(d);
            }
        }
        let m = LevelMap { width, height, cells };
        assert forall|x: int, y: int| m.spec_get(x, y) == brain_cell(x, y) by {
            if 0 <= x < 26 && 0 <= y < 18 {
                assert(m.cell_values()[y * 26 + x] == spec_digit(brain_rows()[y][x]));
            }
        }
        assert(m.grid() =~= brain_grid());
        m
    }

    /// The cell at `(x, y)` (`0` floor, `1..=6` wall type). Outside the grid it is a
    /// wall, so that rays and the player never leave the world.
    pub fn get(&self, x: i32, y: i32) -> (c: u8)
        ensures
            c == self.spec_get(x as int, y as int),
    {
        proof {
            use_type_invariant(self);
        }
        if x < 0 || y < 0 || x as usize >= self.width || y as usize >= self.height {
            return 1;
        }
        let _len = self.cells.len();
        proof {
            crate::canvas::lemma_coords(self.width as int, self.height as int, x as int, y as int);
        }
        self.cells[y as usize * self.width + x as usize]
    }

    /// The cell the player starts on, `(3, 2)`; its centre is the spawn point.
    pub fn spawn_cell(&self) -> (c: (i32, i32))
        ensures
            c.0 == spawn_cell_spec().0,
            c.1 == spawn_cell_spec().1,
    {
        (3, 2)
    }

    /// The cell that ends the level, `(22, 15)`; its centre is the goal point.
    pub fn goal_cell(&self) -> (c: (i32, i32))
        ensures
            c.0 == goal_cell_spec().0,
            c.1 == goal_cell_spec().1,
    {
        (22, 15)
    }

    /// The cell of the shooting target, `(13, 8)`, in an open central area.
    pub fn target_cell(&self) -> (c: (i32, i32))
        ensures
            c.0 == target_cell_spec().0,
            c.1 == target_cell_spec().1,
    {
        (13, 8)
    }
}

} // verus!
