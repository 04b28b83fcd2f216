use vstd::prelude::*;
use crate::types::{Color, px_of, lemma_cell_in_grid, lemma_cell_unique};

verus! {

/// Width of the fixed framebuffer, in pixels.
pub const WIDTH: usize = 320;

/// Height of the fixed framebuffer, in pixels.
pub const HEIGHT: usize = 240;

/// A rectangle with a signed corner and an unsigned extent.
#[derive(PartialEq, Eq, Structural, Clone, Copy, Hash, Debug)]
pub struct Rect {
    pub x: i32,
    pub y: i32,
    pub w: u32,
    pub h: u32,
}

impl Rect {
    pub fn new(x: i32, y: i32, w: u32, h: u32) -> (r: Rect)
        ensures
            r == (Rect { x, y, w, h }),
    {
        Rect { x, y, w, h }
    }
}

/// An integer 2D vector.
#[derive(PartialEq, Eq, Structural, Clone, Copy, Hash, Debug)]
pub struct Vec2i {
    pub x: i32,
    pub y: i32,
}

impl Vec2i {
    pub fn new(x: i32, y: i32) -> (r: Vec2i)
        ensures
            r == (Vec2i { x, y }),
    {
        Vec2i { x, y }
    }
}

/// Whether `after` is the `WIDTH` by `HEIGHT` framebuffer `before` with the
/// pixels of `region` set to `c` and every other pixel kept.
pub open spec fn painted(before: Seq<Color>, after: Seq<Color>, region: spec_fn(int, int) -> bool, c: Color) -> bool {
    &&& after.len() == before.len()
    &&& forall|x: int, y: int|
        0 <= x < WIDTH && 0 <= y < HEIGHT ==> #[trigger] px_of(after, WIDTH as int, x, y) == if region(x, y) {
            c
        } else {
            px_of(before, WIDTH as int, x, y)
        }
}

/// Painting one region and then another is painting their union.
pub proof fn lemma_painted_compose(
    a: Seq<Color>,
    b: Seq<Color>,
    d: Seq<Color>,
    r1: spec_fn(int, int) -> bool,
    r2: spec_fn(int, int) -> bool,
    r3: spec_fn(int, int) -> bool,
    c: Color,
)
    requires
        painted(a, b, r1, c),
        painted(b, d, r2, c),
        forall|x: int, y: int| #[trigger] r3(x, y) == (r1(x, y) || r2(x, y)),
    ensures
        painted(a, d, r3, c),
{
    assert forall|x: int, y: int| 0 <= x < WIDTH && 0 <= y < HEIGHT implies #[trigger] px_of(
        d,
        WIDTH as int,
        x,
        y,
    ) == if r3(x, y) {
        c
    } else {
        px_of(a, WIDTH as int, x, y)
    } by {
        assert(px_of(b, WIDTH as int, x, y) == if r1(x, y) {
            c
        } else {
            px_of(a, WIDTH as int, x, y)
        });
    }
}

/// Painting nothing keeps the framebuffer.
pub proof fn lemma_painted_nothing(a: Seq<Color>, r: spec_fn(int, int) -> bool, c: Color)
    requires
        forall|x: int, y: int| !(#[trigger] r(x, y)),
    ensures
        painted(a, a, r, c),
{
}

/// Sets pixel `(x, y)` of the framebuffer.
fn put_px(fb: &mut [Color], x: usize, y: usize, c: Color)
    requires
        old(fb)@.len() == WIDTH * HEIGHT,
        x < WIDTH,
        y < HEIGHT,
    ensures
        painted(old(fb)@, final(fb)@, |xx: int, yy: int| xx == x && yy == y, c),
{
    proof {
        lemma_cell_in_grid(WIDTH as int, HEIGHT as int, x as int, y as int);
    }
    fb[y * WIDTH + x] = c;
    proof {
        assert forall|xx: int, yy: int| 0 <= xx < WIDTH && 0 <= yy < HEIGHT implies #[trigger] px_of(
            fb@,
            WIDTH as int,
            xx,
            yy,
        ) == if xx == x && yy == y {
            c
        } else {
            px_of(old(fb)@, WIDTH as int, xx, yy)
        } by {
            lemma_cell_unique(WIDTH as int, xx, yy, x as int, y as int);
        }
    }
}

/// Sets every pixel of the framebuffer to `c`.
pub fn clear(fb: &mut [Color], c: Color)
    ensures
        final(fb)@.len() == old(fb)@.len(),
        forall|i: int| 0 <= i < final(fb)@.len() ==> final(fb)@[i] == c,
{
    let n = fb.len();
    let mut i: usize = 0;
    while i < n
        invariant
            i <= n,
            fb@.len() == n,
            forall|j: int| 0 <= j < i ==> fb@[j] == c,
        decreases n - i,
    {
        fb[i] = c;
        i += 1;
    }
}

/// Columns `x0..x1` (end excluded) of row `y`.
fn fill_row(fb: &mut [Color], x0: usize, x1: usize, y: usize, c: Color)
    requires
        old(fb)@.len() == WIDTH * HEIGHT,
        y < HEIGHT,
        x0 <= x1 <= WIDTH,
    ensures
        painted(old(fb)@, final(fb)@, |xx: int, yy: int| yy == y && x0 <= xx < x1, c),
{
    let mut x = x0;
    proof {
        lemma_painted_nothing(fb@, |xx: int, yy: int| yy == y && x0 <= xx < x0, c);
    }
    while x < x1
        invariant
            x0 <= x <= x1,
            x1 <= WIDTH,
            y < HEIGHT,
            fb@.len() == WIDTH * HEIGHT,
            painted(old(fb)@, fb@, |xx: int, yy: int| yy == y && x0 <= xx < x, c),
        decreases x1 - x,
    {
        let ghost mid = fb@;
        put_px(fb, x, y, c);
        proof {
            lemma_painted_compose(
                old(fb)@,
                mid,
                fb@,
                |xx: int, yy: int| yy == y && x0 <= xx < x,
                |xx: int, yy: int| xx == x && yy == y,
                |xx: int, yy: int| yy == y && x0 <= xx < x + 1,
                c,
            );
        }
        x += 1;
    }
}

/// Rows `y0..=y1` of column `x`.
fn fill_col(fb: &mut [Color], x: usize, y0: usize, y1: usize, c: Color)
    requires
        old(fb)@.len() == WIDTH * HEIGHT,
        x < WIDTH,
        y0 <= y1 < HEIGHT,
    ensures
        painted(old(fb)@, final(fb)@, |xx: int, yy: int| xx == x && y0 <= yy <= y1, c),
{
    let mut y = y0;
    proof {
        lemma_painted_nothing(fb@, |xx: int, yy: int| xx == x && y0 <= yy < y0, c);
    }
    while y <= y1
        invariant
            y0 <= y <= y1 + 1,
            y1 < HEIGHT,
            x < WIDTH,
            fb@.len() == WIDTH * HEIGHT,
            painted(old(fb)@, fb@, |xx: int, yy: int| xx == x && y0 <= yy < y, c),
        decreases y1 + 1 - y,
    {
        let ghost mid = fb@;
        put_px(fb, x, y, c);
        proof {
            lemma_painted_compose(
                old(fb)@,
                mid,
                fb@,
                |xx: int, yy: int| xx == x && y0 <= yy < y,
                |xx: int, yy: int| xx == x && yy == y,
                |xx: int, yy: int| xx == x && y0 <= yy < y + 1,
                c,
            );
        }
        y += 1;
    }
    proof {
        lemma_painted_compose(
            old(fb)@,
            fb@,
            fb@,
            |xx: int, yy: int| xx == x && y0 <= yy < y,
            |xx: int, yy: int| false,
            |xx: int, yy: int| xx == x && y0 <= yy <= y1,
            c,
        );
    }
}

/// Fills columns `x0..x1` (end excluded) of row `y` with `c`.
pub fn hline(fb: &mut [Color], x0: usize, x1: usize, y: usize, c: Color)
    requires
        old(fb)@.len() == WIDTH * HEIGHT,
        y < HEIGHT,
        x0 <= x1,
        x1 < WIDTH,
    ensures
        painted(old(fb)@, final(fb)@, |xx: int, yy: int| yy == y && x0 <= xx < x1, c),
{
    fill_row(fb, x0, x1, y, c);
}

/// Fills rows `y0..=y1` of column `x` with `c`.
pub fn vline(fb: &mut [Color], x: usize, y0: usize, y1: usize, c: Color)
    requires
        old(fb)@.len() == WIDTH * HEIGHT,
        y0 <= y1,
        y1 < HEIGHT,
        x < WIDTH,
    ensures
        painted(old(fb)@, final(fb)@, |xx: int, yy: int| xx == x && y0 <= yy <= y1, c),
{
    fill_col(fb, x, y0, y1, c);
}

/// Left edge of a bar `w` wide centred on the framebuffer.
pub open spec fn bar_left(w: int) -> int {
    WIDTH as int / 2 - w / 2
}

/// Right edge (excluded) of a bar `w` wide centred on the framebuffer.
pub open spec fn bar_right(w: int) -> int {
    WIDTH as int / 2 + w / 2
}

/// The filled meter: rows `starting_height..starting_height + 15` (end
/// excluded), columns `bar_left(w)..bar_right(w)`.
pub open spec fn filled_bar(starting_height: int, w: int, x: int, y: int) -> bool {
    starting_height <= y < starting_height + 15 && bar_left(w) <= x < bar_right(w)
}

/// The outlined meter: the top and bottom rows `starting_height` and
/// `starting_height + 15` over columns `bar_left(w)..bar_right(w)`, and the
/// columns `bar_left(w)` and `bar_right(w)` over rows
/// `starting_height..=starting_height + 15`.
pub open spec fn outlined_bar(starting_height: int, w: int, x: int, y: int) -> bool {
    ||| (y == starting_height || y == starting_height + 15) && bar_left(w) <= x < bar_right(w)
    ||| (x == bar_left(w) || x == bar_right(w)) && starting_height <= y <= starting_height + 15
}

/// Draws a meter 15 rows tall and about `w` wide, centred horizontally, from
/// row `starting_height` down; draws nothing when it would reach the bottom row.
pub fn draw_filled_rect(fb2d: &mut [Color], starting_height: usize, w: usize, color: Color)
    requires
        old(fb2d)@.len() == WIDTH * HEIGHT,
        starting_height < HEIGHT - 15 ==> w < WIDTH,
    ensures
        starting_height < HEIGHT - 15 ==> painted(
            old(fb2d)@,
            final(fb2d)@,
            |x: int, y: int| filled_bar(starting_height as int, w as int, x, y),
            color,
        ),
        starting_height >= HEIGHT - 15 ==> final(fb2d)@ == old(fb2d)@,
{
    if starting_height < HEIGHT - 15 {
        let mut y = starting_height;
        proof {
            lemma_painted_nothing(
                fb2d@,
                |x: int, yy: int| starting_height <= yy < starting_height && bar_left(w as int) <= x < bar_right(w as int),
                color,
            );
        }
        while y < starting_height + 15
            invariant
                starting_height <= y <= starting_height + 15,
                starting_height < HEIGHT - 15,
                w < WIDTH,
                fb2d@.len() == WIDTH * HEIGHT,
                painted(
                    old(fb2d)@,
                    fb2d@,
                    |x: int, yy: int| starting_height <= yy < y && bar_left(w as int) <= x < bar_right(w as int),
                    color,
                ),
            decreases starting_height + 15 - y,
        {
            let ghost mid = fb2d@;
            hline(fb2d, WIDTH / 2 - w / 2, WIDTH / 2 + w / 2, y, color);
            proof {
                lemma_painted_compose(
                    old(fb2d)@,
                    mid,
                    fb2d@,
                    |x: int, yy: int| starting_height <= yy < y && bar_left(w as int) <= x < bar_right(w as int),
                    |x: int, yy: int| yy == y && bar_left(w as int) <= x < bar_right(w as int),
                    |x: int, yy: int| starting_height <= yy < y + 1 && bar_left(w as int) <= x < bar_right(w as int),
                    color,
                );
            }
            y += 1;
        }
        proof {
            lemma_painted_compose(
                old(fb2d)@,
                fb2d@,
                fb2d@,
                |x: int, yy: int| starting_height <= yy < y && bar_left(w as int) <= x < bar_right(w as int),
                |x: int, yy: int| false,
                |x: int, yy: int| filled_bar(starting_height as int, w as int, x, yy),
                color,
            );
        }
    }
}

/// Draws the outline of the meter that `draw_filled_rect` fills; draws
/// nothing when it would reach the bottom row.
pub fn draw_outlined_rect(fb2d: &mut [Color], starting_height: usize, w: usize, color: Color)
    requires
        old(fb2d)@.len() == WIDTH * HEIGHT,
        starting_height < HEIGHT - 15 ==> w < WIDTH,
    ensures
        starting_height < HEIGHT - 15 ==> painted(
            old(fb2d)@,
            final(fb2d)@,
            |x: int, y: int| outlined_bar(starting_height as int, w as int, x, y),
            color,
        ),
        starting_height >= HEIGHT - 15 ==> final(fb2d)@ == old(fb2d)@,
{
    if starting_height < HEIGHT - 15 {
        let sh = starting_height;
        let ghost f0 = fb2d@;
        // Top of rect
        hline(fb2d, WIDTH / 2 - w / 2, WIDTH / 2 + w / 2, sh, color);
        let ghost f1 = fb2d@;
        // Left side of rect
        vline(fb2d, WIDTH / 2 - w / 2, sh, sh + 15, color);
        let ghost f2 = fb2d@;
        // Right side of rect
        vline(fb2d, WIDTH / 2 + w / 2, sh, sh + 15, color);
        let ghost f3 = fb2d@;
        // Bottom of rect
        hline(fb2d, WIDTH / 2 - w / 2, WIDTH / 2 + w / 2, sh + 15, color);
        proof {
            let l = bar_left(w as int);
            let r = bar_right(w as int);
            let top = |x: int, y: int| y == sh && l <= x < r;
            let left = |x: int, y: int| x == l && sh <= y <= sh + 15;
            let right = |x: int, y: int| x == r && sh <= y <= sh + 15;
            let bottom = |x: int, y: int| y == sh + 15 && l <= x < r;
            let tl = |x: int, y: int| top(x, y) || left(x, y);
            let tlr = |x: int, y: int| tl(x, y) || right(x, y);
            lemma_painted_compose(f0, f1, f2, top, left, tl, color);
            lemma_painted_compose(f0, f2, f3, tl, right, tlr, color);
            lemma_painted_compose(
                f0,
                f3,
                fb2d@,
                tlr,
                bottom,
                |x: int, y: int| outlined_bar(sh as int, w as int, x, y),
                color,
            );
        }
    }
}

/// One step of the line walk from state `(x, y, err)`, for a line spanning
/// `ax` columns and `ay` rows, stepping by `sx` and `sy`.
pub open spec fn walk_step(s: (int, int, int), ax: int, ay: int, sx: int, sy: int) -> (int, int, int) {
    let e2 = 2 * s.2;
    let x = if -ay <= e2 {
        s.0 + sx
    } else {
        s.0
    };
    let err1 = if -ay <= e2 {
        s.2 - ay
    } else {
        s.2
    };
    if e2 <= ax {
        (x, s.1 + sy, err1 + ax)
    } else {
        (x, s.1, err1)
    }
}

/// Whether the walk from state `s` towards `(ex, ey)`, within `fuel` steps,
/// visits `(px, py)` before it arrives.
pub open spec fn on_walk(
    s: (int, int, int),
    ex: int,
    ey: int,
    ax: int,
    ay: int,
    sx: int,
    sy: int,
    fuel: nat,
    px: int,
    py: int,
) -> bool
    decreases fuel,
{
    if fuel == 0 || (s.0 == ex && s.1 == ey) {
        false
    } else {
        (px == s.0 && py == s.1) || on_walk(walk_step(s, ax, ay, sx, sy), ex, ey, ax, ay, sx, sy, (fuel - 1) as nat, px, py)
    }
}

pub open spec fn abs_diff(a: int, b: int) -> int {
    if a < b {
        b - a
    } else {
        a - b
    }
}

/// Whether `(px, py)` is on the line from `(x0, y0)` to `(x1, y1)` that
/// Bresenham's walk traces: every point it visits, the end point excluded.
pub open spec fn on_line(x0: int, y0: int, x1: int, y1: int, px: int, py: int) -> bool {
    let ax = abs_diff(x0, x1);
    let ay = abs_diff(y0, y1);
    on_walk(
        (x0, y0, ax - ay),
        x1,
        y1,
        ax,
        ay,
        if x0 < x1 {
            1
        } else {
            -1
        },
        if y0 < y1 {
            1
        } else {
            -1
        },
        (ax + ay + 1) as nat,
        px,
        py,
    )
}

/// Draws the line from `p0` towards `p1` with Bresenham's walk, every visited
/// pixel but `p1` itself.
pub fn diagonal_line(fb: &mut [Color], p0: (usize, usize), p1: (usize, usize), col: Color)
    requires
        old(fb)@.len() == WIDTH * HEIGHT,
        p0.0 < WIDTH,
        p1.0 < WIDTH,
        p0.1 < HEIGHT,
        p1.1 < HEIGHT,
    ensures
        painted(
            old(fb)@,
            final(fb)@,
            |px: int, py: int| on_line(p0.0 as int, p0.1 as int, p1.0 as int, p1.1 as int, px, py),
            col,
        ),
{
    let mut x = p0.0 as i64;
    let mut y = p0.1 as i64;
    let x0 = p0.0 as i64;
    let y0 = p0.1 as i64;
    let x1 = p1.0 as i64;
    let y1 = p1.1 as i64;
    let dx = if x1 >= x0 { x1 - x0 } else { x0 - x1 };
    let sx: i64 = if x0 < x1 { 1 } else { -1 };
    let dy = -(if y1 >= y0 { y1 - y0 } else { y0 - y1 });
    let sy: i64 = if y0 < y1 { 1 } else { -1 };
    let mut err = dx + dy;
    let ghost ax = dx as int;
    let ghost ay = -dy as int;
    let ghost fuel0: nat = (ax + ay + 1) as nat;
    let ghost start = (x0 as int, y0 as int, ax - ay);
    let ghost mut xs: int = 0;
    let ghost mut ys: int = 0;
    let ghost mut fuel: nat = fuel0;
    let ghost mut done = |px: int, py: int| false;
    proof {
        lemma_painted_nothing(fb@, done, col);
    }
    while x != x1 || y != y1
        invariant
            fb@.len() == WIDTH * HEIGHT,
            x0 < WIDTH && x1 < WIDTH && y0 < HEIGHT && y1 < HEIGHT,
            0 <= x0 && 0 <= x1 && 0 <= y0 && 0 <= y1,
            ax == abs_diff(x0 as int, x1 as int),
            ay == abs_diff(y0 as int, y1 as int),
            dx == ax,
            dy == -ay,
            sx == (if x0 < x1 { 1int } else { -1int }),
            sy == (if y0 < y1 { 1int } else { -1int }),
            start == (x0 as int, y0 as int, ax - ay),
            fuel0 == ax + ay + 1,
            0 <= xs <= ax,
            0 <= ys <= ay,
            x == (if x0 < x1 { x0 + xs } else { x0 - xs }),
            y == (if y0 < y1 { y0 + ys } else { y0 - ys }),
            err == ax * (1 + ys) - ay * (1 + xs),
            fuel >= (ax - xs) + (ay - ys) + 1,
            painted(old(fb)@, fb@, done, col),
            forall|px: int, py: int|
                #[trigger] on_walk(start, x1 as int, y1 as int, ax, ay, sx as int, sy as int, fuel0, px, py) == (
                done(px, py) || on_walk(
                    (x as int, y as int, err as int),
                    x1 as int,
                    y1 as int,
                    ax,
                    ay,
                    sx as int,
                    sy as int,
                    fuel,
                    px,
                    py,
                )),
        decreases (ax - xs) + (ay - ys),
    {
        proof {
            assert(-100000 <= ax * (1 + ys) <= 100000) by (nonlinear_arith)
                requires
                    0 <= ax < 320,
                    0 <= ys < 240,
            ;
            assert(-100000 <= ay * (1 + xs) <= 100000) by (nonlinear_arith)
                requires
                    0 <= ay < 240,
                    0 <= xs < 320,
            ;
            assert(xs < ax || ys < ay);
            if xs == ax {
                assert(err <= -ay) by (nonlinear_arith)
                    requires
                        err == ax * (1 + ys) - ay * (1 + xs),
                        xs == ax,
                        ys < ay,
                        0 <= ax,
                        0 <= ay,
                ;
            }
            if ys == ay {
                assert(err >= ax) by (nonlinear_arith)
                    requires
                        err == ax * (1 + ys) - ay * (1 + xs),
                        ys == ay,
                        xs < ax,
                        0 <= ax,
                        0 <= ay,
                ;
            }
        }
        let ghost s = (x as int, y as int, err as int);
        let ghost mid = fb@;
        put_px(fb, x as usize, y as usize, col);
        let e2 = 2 * err;
        if dy <= e2 {
            err += dy;
            x += sx;
            proof {
                xs = xs + 1;
            }
        }
        if e2 <= dx {
            err += dx;
            y += sy;
            proof {
                ys = ys + 1;
            }
        }
        proof {
            assert(err == ax * (1 + ys) - ay * (1 + xs)) by (nonlinear_arith)
                requires
                    err == s.2 + (if dy <= e2 { -ay } else { 0 }) + (if e2 <= dx { ax } else { 0 }),
                    s.2 == ax * (1 + (ys - (if e2 <= dx { 1int } else { 0 }))) - ay * (1 + (xs - (if dy
                        <= e2 { 1int } else { 0 }))),
                    dy == -ay,
                    dx == ax,
            ;
            assert((x as int, y as int, err as int) == walk_step(s, ax, ay, sx as int, sy as int));
            let old_done = done;
            let new_done = |px: int, py: int| old_done(px, py) || (px == s.0 && py == s.1);
            lemma_painted_compose(
                old(fb)@,
                mid,
                fb@,
                old_done,
                |px: int, py: int| px == s.0 && py == s.1,
                new_done,
                col,
            );
            done = new_done;
            fuel = (fuel - 1) as nat;
        }
    }
    proof {
        lemma_painted_compose(
            old(fb)@,
            fb@,
            fb@,
            done,
            |px: int, py: int| false,
            |px: int, py: int| on_line(p0.0 as int, p0.1 as int, p1.0 as int, p1.1 as int, px, py),
            col,
        );
    }
}

/// Fills columns `x0..x1` (end excluded) of row `y` with no check against the
/// framebuffer's width: past the right edge it runs on into the next rows.
fn hline_beyond_window(fb: &mut [Color], x0: usize, x1: usize, y: usize, c: Color)
    requires
        x0 <= x1,
        y * WIDTH + x1 <= old(fb)@.len(),
    ensures
        final(fb)@.len() == old(fb)@.len(),
        forall|i: int|
            0 <= i < old(fb)@.len() ==> #[trigger] final(fb)@[i] == if y * WIDTH + x0 <= i < y * WIDTH + x1 {
                c
            } else {
                old(fb)@[i]
            },
{
    let _n = fb.len();
    let start = y * WIDTH + x0;
    let stop = y * WIDTH + x1;
    let mut i = start;
    while i < stop
        invariant
            start <= i <= stop,
            start == y * WIDTH + x0,
            stop == y * WIDTH + x1,
            stop <= fb@.len(),
            fb@.len() == old(fb)@.len(),
            forall|j: int|
                0 <= j < old(fb)@.len() ==> #[trigger] fb@[j] == if start <= j < i {
                    c
                } else {
                    old(fb)@[j]
                },
        decreases stop - i,
    {
        fb[i] = c;
        i += 1;
    }
}

} // verus!
