//! The framebuffer model: a row-major slice of `0x00RRGGBB` pixels, `screen_w`
//! pixels per row, and the drawing primitives every screen element is built from.
use vstd::prelude::*;
use vstd::arithmetic::div_mod::lemma_fundamental_div_mod;
use vstd::arithmetic::div_mod::lemma_fundamental_div_mod_converse;
use vstd::arithmetic::div_mod::lemma_mod_pos_bound;
use vstd::arithmetic::mul::lemma_mul_inequality;

verus! {

/// The buffer `old` after drawing `layer` on a `w` x `h` screen: every on-screen
/// pixel where the layer has a colour takes that colour, every other entry keeps
/// its value (entries past `w * h` are never touched).
pub open spec fn paint(old: Seq<u32>, w: int, h: int, layer: spec_fn(int, int) -> Option<u32>) -> Seq<u32> {
    Seq::new(
        old.len(),
        |i: int|
            if i < w * h && layer(i % w, i / w) is Some {
                layer(i % w, i / w)->0
            } else {
                old[i]
            },
    )
}

/// Whether `(x, y)` lies on a `w` x `h` screen.
pub open spec fn on_screen(w: int, h: int, x: int, y: int) -> bool {
    0 <= x < w && 0 <= y < h
}

/// The part of `layer` that a row-major scan has passed when it stands at `(x, y)`.
pub open spec fn scanned(layer: spec_fn(int, int) -> Option<u32>, y: int, x: int) -> spec_fn(
    int,
    int,
) -> Option<u32> {
    |px: int, py: int|
        if py < y || (py == y && px < x) {
            layer(px, py)
        } else {
            None
        }
}

/// A layer that paints the single point `(x, y)`.
pub open spec fn point_layer(x: int, y: int, color: u32) -> spec_fn(int, int) -> Option<u32> {
    |px: int, py: int|
        if px == x && py == y {
            Some(color)
        } else {
            None
        }
}

/// A layer that paints the rectangle `[x0, x0 + rw) x [y0, y0 + rh)`.
pub open spec fn rect_layer(x0: int, y0: int, rw: int, rh: int, color: u32) -> spec_fn(
    int,
    int,
) -> Option<u32> {
    |px: int, py: int|
        if x0 <= px < x0 + rw && y0 <= py < y0 + rh {
            Some(color)
        } else {
            None
        }
}

/// Layer `top` drawn over layer `bottom`.
pub open spec fn over(top: spec_fn(int, int) -> Option<u32>, bottom: spec_fn(int, int) -> Option<u32>) -> spec_fn(
    int,
    int,
) -> Option<u32> {
    |px: int, py: int|
        if top(px, py) is Some {
            top(px, py)
        } else {
            bottom(px, py)
        }
}

/// The pixel of an on-screen point sits at `y * w + x`, and that index maps back to the point.
pub proof fn lemma_coords(w: int, h: int, x: int, y: int)
    requires
        on_screen(w, h, x, y),
    ensures
        0 <= y * w + x < w * h,
        (y * w + x) % w == x,
        (y * w + x) / w == y,
{
    lemma_fundamental_div_mod_converse(y * w + x, w, y, x);
    lemma_mul_inequality(y + 1, h, w);
    assert((y + 1) * w == y * w + w) by (nonlinear_arith);
    assert(0 <= y * w) by (nonlinear_arith)
        requires
            0 <= y,
            0 < w,
    ;
}

/// Every index below `w * h` is the pixel of an on-screen point.
pub proof fn lemma_index(w: int, h: int, i: int)
    requires
        0 < w,
        0 <= i < w * h,
    ensures
        on_screen(w, h, i % w, i / w),
        i == (i / w) * w + i % w,
{
    lemma_fundamental_div_mod(i, w);
    lemma_mod_pos_bound(i, w);
    assert((i / w) * w == w * (i / w)) by (nonlinear_arith);
    if i / w < 0 {
        assert((i / w) * w < 0) by (nonlinear_arith)
            requires
                i / w < 0,
                0 < w,
        ;
    }
    if i / w >= h {
        lemma_mul_inequality(h, i / w, w);
        assert(h * w == w * h) by (nonlinear_arith);
    }
}

/// Two layers that agree on every on-screen point paint the same buffer.
pub proof fn lemma_paint_ext(
    old: Seq<u32>,
    w: int,
    h: int,
    a: spec_fn(int, int) -> Option<u32>,
    b: spec_fn(int, int) -> Option<u32>,
)
    requires
        0 <= w,
        0 <= h,
        forall|x: int, y: int| on_screen(w, h, x, y) ==> #[trigger] a(x, y) == b(x, y),
    ensures
        paint(old, w, h, a) == paint(old, w, h, b),
{
    assert forall|i: int| 0 <= i < old.len() implies paint(old, w, h, a)[i] == paint(
        old,
        w,
        h,
        b,
    )[i] by {
        if i < w * h {
            if w <= 0 {
                assert(w * h <= 0) by (nonlinear_arith)
                    requires
                        w <= 0,
                        0 <= h,
                        0 <= i < w * h,
                ;
            }
            lemma_index(w, h, i);
            assert(a(i % w, i / w) == b(i % w, i / w));
        }
    }
    assert(paint(old, w, h, a) =~= paint(old, w, h, b));
}

/// A layer with no colour on screen leaves the buffer as it was.
pub proof fn lemma_paint_nothing(old: Seq<u32>, w: int, h: int, a: spec_fn(int, int) -> Option<u32>)
    requires
        0 <= w,
        0 <= h,
        forall|x: int, y: int| on_screen(w, h, x, y) ==> #[trigger] a(x, y) is None,
    ensures
        paint(old, w, h, a) == old,
{
    assert forall|i: int| 0 <= i < old.len() implies paint(old, w, h, a)[i] == old[i] by {
        if i < w * h {
            if w <= 0 {
                assert(w * h <= 0) by (nonlinear_arith)
                    requires
                        w <= 0,
                        0 <= h,
                        0 <= i < w * h,
                ;
            }
            lemma_index(w, h, i);
            assert(a(i % w, i / w) is None);
        }
    }
    assert(paint(old, w, h, a) =~= old);
}

/// Painting `top` on the result of painting `bottom` is painting `over(top, bottom)`.
pub proof fn lemma_paint_twice(
    old: Seq<u32>,
    w: int,
    h: int,
    bottom: spec_fn(int, int) -> Option<u32>,
    top: spec_fn(int, int) -> Option<u32>,
)
    ensures
        paint(paint(old, w, h, bottom), w, h, top) == paint(old, w, h, over(top, bottom)),
{
    assert(paint(paint(old, w, h, bottom), w, h, top) =~= paint(old, w, h, over(top, bottom)));
}

/// One step of a row-major scan: writing the colour of `layer` at `(x, y)` extends
/// the scanned part by that point.
pub proof fn lemma_scan_step(
    old: Seq<u32>,
    cur: Seq<u32>,
    w: int,
    h: int,
    layer: spec_fn(int, int) -> Option<u32>,
    x: int,
    y: int,
)
    requires
        on_screen(w, h, x, y),
        w * h <= old.len(),
        cur == paint(old, w, h, scanned(layer, y, x)),
    ensures
        0 <= y * w + x < w * h,
        layer(x, y) is Some ==> cur.update(y * w + x, layer(x, y)->0) == paint(
            old,
            w,
            h,
            scanned(layer, y, x + 1),
        ),
        layer(x, y) is None ==> cur == paint(old, w, h, scanned(layer, y, x + 1)),
{
    lemma_coords(w, h, x, y);
    let k = y * w + x;
    let next = match layer(x, y) {
        Some(c) => cur.update(k, c),
        None => cur,
    };
    assert forall|i: int| 0 <= i < old.len() implies next[i] == paint(
        old,
        w,
        h,
        scanned(layer, y, x + 1),
    )[i] by {
        if i < w * h {
            lemma_index(w, h, i);
            if i != k {
                assert(i % w != x || i / w != y);
            }
        }
    }
    assert(next =~= paint(old, w, h, scanned(layer, y, x + 1)));
}

/// A picture that can be drawn point by point: the colour it puts at each point, and a
/// box outside of which it puts none.
pub trait Shape {
    /// What the shape needs of its own fields to be drawn.
    spec fn inv(&self) -> bool;

    /// The colour the shape puts at `(x, y)`, if any.
    spec fn spec_at(&self, x: int, y: int) -> Option<u32>;

    /// The half-open box `[xa, xb) x [ya, yb)`, as `(xa, ya, xb, yb)`, that holds every painted point.
    spec fn spec_bounds(&self) -> (int, int, int, int);

    /// Nothing is painted outside the box.
    proof fn lemma_outside(&self, x: int, y: int)
        requires
            self.inv(),
            !(self.spec_bounds().0 <= x < self.spec_bounds().2 && self.spec_bounds().1 <= y
                < self.spec_bounds().3),
        ensures
            self.spec_at(x, y) is None,
    ;

    /// The box, in machine integers.
    fn bounds(&self) -> (r: (i32, i32, i32, i32))
        requires
            self.inv(),
        ensures
            r.0 as int == self.spec_bounds().0,
            r.1 as int == self.spec_bounds().1,
            r.2 as int == self.spec_bounds().2,
            r.3 as int == self.spec_bounds().3,
    ;

    /// The colour at a point of the box.
    fn at(&self, x: i32, y: i32) -> (c: Option<u32>)
        requires
            self.inv(),
            self.spec_bounds().0 <= x < self.spec_bounds().2,
            self.spec_bounds().1 <= y < self.spec_bounds().3,
        ensures
            c == self.spec_at(x as int, y as int),
    ;
}

/// The layer of a shape.
pub open spec fn shape_layer<S: Shape>(s: &S) -> spec_fn(int, int) -> Option<u32> {
    |x: int, y: int| s.spec_at(x, y)
}

/// The least of `v` and the screen extent `limit`.
fn clip_high(v: i32, limit: usize) -> (r: i32)
    ensures
        r as int == if v < limit { v as int } else { limit as int },
{
    if limit <= 2147483647usize && v as i64 > limit as i64 {
        limit as i32
    } else {
        v
    }
}

/// Draws a shape: scans the on-screen part of its box row by row and writes its colour
/// wherever it has one.
pub fn draw_shape<S: Shape>(buffer: &mut [u32], screen_w: usize, screen_h: usize, shape: &S)
    requires
        screen_w * screen_h <= old(buffer)@.len(),
        shape.inv(),
    ensures
        final(buffer)@ == paint(old(buffer)@, screen_w as int, screen_h as int, shape_layer(shape)),
{
    let ghost old_buf = buffer@;
    let len = buffer.len();
    let ghost w = screen_w as int;
    let ghost h = screen_h as int;
    let ghost layer = shape_layer(shape);
    let (xa, ya, xb, yb) = shape.bounds();
    let xs: i32 = if xa < 0 {
        0
    } else {
        xa
    };
    let ys: i32 = if ya < 0 {
        0
    } else {
        ya
    };
    let mut xe: i32 = clip_high(xb, screen_w);
    if xe < xs {
        xe = xs;
    }
    let mut ye: i32 = clip_high(yb, screen_h);
    if ye < ys {
        ye = ys;
    }
    assert forall|x: int, y: int|
        on_screen(w, h, x, y) && !(xs <= x < xe && ys <= y < ye) implies #[trigger] layer(x, y) is None by {
        shape.lemma_outside(x, y);
    }
    proof {
        lemma_paint_nothing(old_buf, w, h, scanned(layer, ys as int, xs as int));
    }
    let mut y: i32 = ys;
    while y < ye
        invariant
            ys <= y <= ye,
            0 <= xs <= xe,
            0 <= ys,
            xe <= w || xe == xs,
            ye <= h || ye == ys,
            shape.inv(),
            xa as int == shape.spec_bounds().0,
            ya as int == shape.spec_bounds().1,
            xb as int == shape.spec_bounds().2,
            yb as int == shape.spec_bounds().3,
            xa <= xs || xs == xe,
            xe <= xb || xs == xe,
            ya <= ys || ys == ye,
            ye <= yb || ys == ye,
            w == screen_w,
            h == screen_h,
            w * h <= old_buf.len(),
            len == old_buf.len(),
            layer == shape_layer(shape),
            forall|x: int, y: int|
                on_screen(w, h, x, y) && !(xs <= x < xe && ys <= y < ye) ==> #[trigger] layer(x, y) is None,
            buffer@ == paint(old_buf, w, h, scanned(layer, y as int, xs as int)),
        decreases ye - y,
    {
        let mut x: i32 = xs;
        while x < xe
            invariant
                ys <= y < ye,
                xs <= x <= xe,
                0 <= xs,
                0 <= ys,
                xe <= w || xe == xs,
                ye <= h || ye == ys,
                shape.inv(),
                xa as int == shape.spec_bounds().0,
                ya as int == shape.spec_bounds().1,
                xb as int == shape.spec_bounds().2,
                yb as int == shape.spec_bounds().3,
                xa <= xs || xs == xe,
                xe <= xb || xs == xe,
                ya <= ys || ys == ye,
                ye <= yb || ys == ye,
                w == screen_w,
                h == screen_h,
                w * h <= old_buf.len(),
                len == old_buf.len(),
                layer == shape_layer(shape),
                buffer@.len() == old_buf.len(),
                buffer@ == paint(old_buf, w, h, scanned(layer, y as int, x as int)),
            decreases xe - x,
        {
            proof {
                lemma_scan_step(old_buf, buffer@, w, h, layer, x as int, y as int);
            }
            match shape.at(x, y) {
                Some(c) => {
                    let idx = (y as usize) * screen_w + (x as usize);
                    buffer[idx] = c;
                },
                None => {},
            }
            x = x + 1;
        }
        proof {
            lemma_paint_ext(
                old_buf,
                w,
                h,
                scanned(layer, y as int, xe as int),
                scanned(layer, y as int + 1, xs as int),
            );
        }
        y = y + 1;
    }
    proof {
        lemma_paint_ext(old_buf, w, h, scanned(layer, ye as int, xs as int), layer);
    }
}

/// A solid rectangle.
pub struct Rect {
    pub x0: i32,
    pub y0: i32,
    pub w: i32,
    pub h: i32,
    pub color: u32,
}

impl Shape for Rect {
    open spec fn inv(&self) -> bool {
        &&& i32::MIN <= self.x0 + self.w <= i32::MAX
        &&& i32::MIN <= self.y0 + self.h <= i32::MAX
    }

    open spec fn spec_at(&self, x: int, y: int) -> Option<u32> {
        rect_layer(self.x0 as int, self.y0 as int, self.w as int, self.h as int, self.color)(x, y)
    }

    open spec fn spec_bounds(&self) -> (int, int, int, int) {
        (self.x0 as int, self.y0 as int, self.x0 + self.w, self.y0 + self.h)
    }

    proof fn lemma_outside(&self, x: int, y: int) {
    }

    fn bounds(&self) -> (r: (i32, i32, i32, i32)) {
        (self.x0, self.y0, self.x0 + self.w, self.y0 + self.h)
    }

    fn at(&self, x: i32, y: i32) -> (c: Option<u32>) {
        Some(self.color)
    }
}

/// Writes `color` at `(x, y)` if that point is on screen.
pub fn put_pixel(buffer: &mut [u32], screen_w: usize, screen_h: usize, x: i32, y: i32, color: u32)
    requires
        screen_w * screen_h <= old(buffer)@.len(),
    ensures
        final(buffer)@ == paint(old(buffer)@, screen_w as int, screen_h as int, point_layer(x as int, y as int, color)),
{
    let ghost old_buf = buffer@;
    let _len = buffer.len();
    if x < 0 || y < 0 || x as usize >= screen_w || y as usize >= screen_h {
        proof {
            lemma_paint_nothing(old_buf, screen_w as int, screen_h as int, point_layer(x as int, y as int, color));
        }
        return ;
    }
    proof {
        lemma_paint_nothing(old_buf, screen_w as int, screen_h as int, scanned(point_layer(x as int, y as int, color), y as int, x as int));
        lemma_scan_step(old_buf, buffer@, screen_w as int, screen_h as int, point_layer(x as int, y as int, color), x as int, y as int);
        lemma_paint_ext(old_buf, screen_w as int, screen_h as int, scanned(point_layer(x as int, y as int, color), y as int, x as int + 1), point_layer(x as int, y as int, color));
    }
    buffer[y as usize * screen_w + x as usize] = color;
}

/// Fills the rectangle of width `w` and height `h` whose top-left corner is `(x0, y0)`
/// with `color`, clipped to the screen.
pub fn fill_rect(
    buffer: &mut [u32],
    screen_w: usize,
    screen_h: usize,
    x0: i32,
    y0: i32,
    w: i32,
    h: i32,
    color: u32,
)
    requires
        screen_w * screen_h <= old(buffer)@.len(),
        i32::MIN <= x0 + w <= i32::MAX,
        i32::MIN <= y0 + h <= i32::MAX,
    ensures
        final(buffer)@ == paint(
            old(buffer)@,
            screen_w as int,
            screen_h as int,
            rect_layer(x0 as int, y0 as int, w as int, h as int, color),
        ),
{
    let r = Rect { x0, y0, w, h, color };
    let ghost old_buf = buffer@;
    draw_shape(buffer, screen_w, screen_h, &r);
    proof {
        lemma_paint_ext(
            old_buf,
            screen_w as int,
            screen_h as int,
            shape_layer(&r),
            rect_layer(x0 as int, y0 as int, w as int, h as int, color),
        );
    }
}

} // verus!
