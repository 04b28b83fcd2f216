use vstd::prelude::*;

verus! {

/// An RGBA8888 pixel whose colour channels are already multiplied by alpha.
pub type Color = (u8, u8, u8, u8);

/// An integer 2D vector.
#[derive(PartialEq, Eq, Structural, Clone, Copy, Hash, Debug)]
pub struct Vec2i {
    pub x: i32,
    pub y: i32,
}

impl Vec2i {
    /// Component-wise sum.
    pub fn add(self, other: Vec2i) -> (r: Vec2i)
        requires
            i32::MIN <= self.x + other.x <= i32::MAX,
            i32::MIN <= self.y + other.y <= i32::MAX,
        ensures
            r.x == self.x + other.x,
            r.y == self.y + other.y,
    {
        Vec2i { x: self.x + other.x, y: self.y + other.y }
    }
}

/// An axis-aligned rectangle: top-left corner `pos` and extent `sz`.
#[derive(PartialEq, Eq, Structural, Clone, Copy, Debug)]
pub struct Rect {
    pub pos: Vec2i,
    pub sz: Vec2i,
}

impl Rect {
    /// A rectangle with a non-negative extent.
    pub open spec fn wf(self) -> bool {
        self.sz.x >= 0 && self.sz.y >= 0
    }

    pub open spec fn spec_contains(self, other: Rect) -> bool {
        &&& self.pos.x <= other.pos.x
        &&& self.pos.y <= other.pos.y
        &&& other.pos.x + other.sz.x <= self.pos.x + self.sz.x
        &&& other.pos.y + other.sz.y <= self.pos.y + self.sz.y
    }

    pub open spec fn spec_contains_point(self, p: Vec2i) -> bool {
        &&& self.pos.x <= p.x < self.pos.x + self.sz.x
        &&& self.pos.y <= p.y < self.pos.y + self.sz.y
    }

    /// Whether `other` lies entirely inside `self`.
    pub fn contains(&self, other: Rect) -> (r: bool)
        ensures
            r == self.spec_contains(other),
    {
        let br_x = self.pos.x as i64 + self.sz.x as i64;
        let br_y = self.pos.y as i64 + self.sz.y as i64;
        let obr_x = other.pos.x as i64 + other.sz.x as i64;
        let obr_y = other.pos.y as i64 + other.sz.y as i64;
        self.pos.x <= other.pos.x && self.pos.y <= other.pos.y && obr_x <= br_x && obr_y <= br_y
    }

    /// Whether `p` lies in `[pos, pos + sz)` on both axes.
    pub fn contains_point(&self, p: Vec2i) -> (r: bool)
        ensures
            r == self.spec_contains_point(p),
    {
        let br_x = self.pos.x as i64 + self.sz.x as i64;
        let br_y = self.pos.y as i64 + self.sz.y as i64;
        self.pos.x <= p.x && (p.x as i64) < br_x && self.pos.y <= p.y && (p.y as i64) < br_y
    }
}

/// An owned grid of premultiplied pixels, row-major, origin at the top left.
#[derive(PartialEq, Eq, Clone, Hash, Debug)]
pub struct Image {
    pub buffer: Vec<Color>,
    pub sz: Vec2i,
}

/// The pixel at column `x`, row `y` of a row-major buffer `w` pixels wide.
pub open spec fn px_of(buf: Seq<Color>, w: int, x: int, y: int) -> Color {
    buf[y * w + x]
}

impl Image {
    /// The buffer holds exactly one pixel per cell of the `sz.x` by `sz.y` grid.
    pub open spec fn wf(&self) -> bool {
        &&& self.sz.x >= 0
        &&& self.sz.y >= 0
        &&& self.buffer@.len() == self.sz.x * self.sz.y
    }

    pub open spec fn px(&self, x: int, y: int) -> Color {
        px_of(self.buffer@, self.sz.x as int, x, y)
    }

    pub open spec fn in_bounds(&self, x: int, y: int) -> bool {
        0 <= x < self.sz.x && 0 <= y < self.sz.y
    }

    /// A blank canvas of size `sz`, every pixel opaque black.
    pub fn new(sz: Vec2i) -> (r: Image)
        requires
            sz.x >= 0,
            sz.y >= 0,
            sz.x * sz.y <= usize::MAX,
        ensures
            r.wf(),
            r.sz == sz,
            forall|i: int| 0 <= i < r.buffer@.len() ==> r.buffer@[i] == (0u8, 0u8, 0u8, 255u8),
    {
        let n: usize = (sz.x as usize) * (sz.y as usize);
        let mut buffer: Vec<Color> = Vec::with_capacity(n);
        let mut i: usize = 0;
        while i < n
            invariant
                i <= n,
                buffer@.len() == i,
                forall|j: int| 0 <= j < i ==> buffer@[j] == (0u8, 0u8, 0u8, 255u8),
            decreases n - i,
        {
            buffer.push((0, 0, 0, 255));
            i += 1;
        }
        Image { buffer, sz }
    }

    /// The pixels, row-major.
    pub fn as_slice(&self) -> (r: &[Color])
        ensures
            r@ == self.buffer@,
    {
        self.buffer.as_slice()
    }

    /// Fills every pixel with `c`.
    pub fn clear(&mut self, c: Color)
        ensures
            final(self).sz == old(self).sz,
            final(self).buffer@.len() == old(self).buffer@.len(),
            forall|i: int| 0 <= i < final(self).buffer@.len() ==> final(self).buffer@[i] == c,
    {
        let n = self.buffer.len();
        let mut i: usize = 0;
        while i < n
            invariant
                i <= n,
                self.sz == old(self).sz,
                self.buffer@.len() == n,
                forall|j: int| 0 <= j < i ==> self.buffer@[j] == c,
            decreases n - i,
        {
            self.buffer[i] = c;
            i += 1;
        }
    }

    /// Fills columns `x0..x1` (end excluded) of row `y` with `c`.
    pub fn hline(&mut self, x0: usize, x1: usize, y: usize, c: Color)
        requires
            old(self).wf(),
            y < old(self).sz.y,
            x0 <= x1,
            x1 < old(self).sz.x,
        ensures
            final(self).wf(),
            final(self).sz == old(self).sz,
            forall|x: int, yy: int|
                old(self).in_bounds(x, yy) ==> #[trigger] final(self).px(x, yy) == if yy == y && x0
                    <= x < x1 {
                    c
                } else {
                    old(self).px(x, yy)
                },
    {
        let w = self.sz.x as usize;
        let ghost h = self.sz.y as int;
        let n = self.buffer.len();
        let mut x = x0;
        while x < x1
            invariant
                x0 <= x <= x1,
                x1 < w,
                y < h,
                w == old(self).sz.x,
                h == old(self).sz.y,
                self.sz == old(self).sz,
                self.wf(),
                self.buffer@.len() == n,
                forall|xx: int, yy: int|
                    old(self).in_bounds(xx, yy) ==> #[trigger] self.px(xx, yy) == if yy == y && x0
                        <= xx < x {
                        c
                    } else {
                        old(self).px(xx, yy)
                    },
            decreases x1 - x,
        {
            proof {
                lemma_cell_in_grid(w as int, h, x as int, y as int);
            }
            let i = y * w + x;
            let ghost before = *self;
            self.buffer[i] = c;
            proof {
                assert forall|xx: int, yy: int| old(self).in_bounds(xx, yy) implies #[trigger] self.px(
                    xx,
                    yy,
                ) == if yy == y && x0 <= xx < x + 1 {
                    c
                } else {
                    old(self).px(xx, yy)
                } by {
                    lemma_cell_unique(w as int, xx, yy, x as int, y as int);
                    lemma_cell_in_grid(w as int, h, xx, yy);
                    assert(before.px(xx, yy) == if yy == y && x0 <= xx < x {
                        c
                    } else {
                        old(self).px(xx, yy)
                    });
                }
            }
            x += 1;
        }
    }
}

/// A straight-alpha RGBA pixel with its colour channels multiplied by alpha,
/// rounded down.
pub open spec fn premultiply(r: u8, g: u8, b: u8, a: u8) -> Color {
    (
        (r as int * a as int / 255) as u8,
        (g as int * a as int / 255) as u8,
        (b as int * a as int / 255) as u8,
        a,
    )
}

/// The premultiplied pixels of straight-alpha RGBA bytes, four per pixel.
pub open spec fn rgba_pixels(data: Seq<u8>) -> Seq<Color> {
    Seq::new(
        data.len() / 4,
        |i: int| premultiply(data[4 * i], data[4 * i + 1], data[4 * i + 2], data[4 * i + 3]),
    )
}

/// Whether `data` holds exactly one RGBA pixel per cell of a `w` by `h` image
/// whose sides fit an `i32`.
pub open spec fn rgba_fits(w: u32, h: u32, data: Seq<u8>) -> bool {
    &&& w <= i32::MAX
    &&& h <= i32::MAX
    &&& data.len() == 4 * (w * h)
}

fn premultiply_channel(c: u8, a: u8) -> (r: u8)
    ensures
        r == (c as int * a as int / 255) as u8,
        r as int == c as int * a as int / 255,
{
    assert(c as u32 * a as u32 <= 255 * 255) by (nonlinear_arith)
        requires
            c <= 255,
            a <= 255,
    ;
    assert(c as u32 * a as u32 / 255 <= 255) by (nonlinear_arith)
        requires
            c as u32 * a as u32 <= 255 * 255,
    ;
    ((c as u32 * a as u32) / 255) as u8
}

impl Image {
    /// An image of `w` by `h` pixels from straight-alpha RGBA bytes, row-major,
    /// with alpha multiplied in; `None` unless the bytes hold exactly one pixel
    /// per cell and both sides fit an `i32`.
    pub fn from_rgba(w: u32, h: u32, data: &Vec<u8>) -> (r: Option<Image>)
        ensures
            rgba_fits(w, h, data@) ==> (r matches Some(img) && img.wf() && img.sz == (Vec2i {
                x: w as i32,
                y: h as i32,
            }) && img.buffer@ == rgba_pixels(data@)),
            !rgba_fits(w, h, data@) ==> r is None,
    {
        if w > i32::MAX as u32 || h > i32::MAX as u32 {
            return None;
        }
        assert(w as u64 * h as u64 <= 0x4000_0000_0000_0000) by (nonlinear_arith)
            requires
                w <= 0x8000_0000u32,
                h <= 0x8000_0000u32,
        ;
        let n: u64 = w as u64 * h as u64;
        if n > (data.len() / 4) as u64 || data.len() % 4 != 0 || n != (data.len() / 4) as u64 {
            return None;
        }
        let len = data.len();
        let count: usize = len / 4;
        proof {
            vstd::arithmetic::div_mod::lemma_fundamental_div_mod(len as int, 4);
        }
        let mut buffer: Vec<Color> = Vec::with_capacity(count);
        let mut i: usize = 0;
        while i < count
            invariant
                count == data@.len() / 4,
                len == data@.len(),
                4 * count <= len,
                i <= count,
                buffer@.len() == i,
                forall|j: int| 0 <= j < i ==> #[trigger] buffer@[j] == rgba_pixels(data@)[j],
            decreases count - i,
        {
            let px = (
                premultiply_channel(data[4 * i], data[4 * i + 3]),
                premultiply_channel(data[4 * i + 1], data[4 * i + 3]),
                premultiply_channel(data[4 * i + 2], data[4 * i + 3]),
                data[4 * i + 3],
            );
            buffer.push(px);
            i += 1;
        }
        assert(buffer@ =~= rgba_pixels(data@));
        Some(Image { buffer, sz: Vec2i { x: w as i32, y: h as i32 } })
    }
}

/// A cell of a `w` by `h` grid has a row-major index inside the grid.
pub proof fn lemma_cell_in_grid(w: int, h: int, x: int, y: int)
    requires
        0 <= x < w,
        0 <= y < h,
    ensures
        0 <= y * w + x < w * h,
{
    assert(0 <= y * w) by (nonlinear_arith)
        requires
            0 <= y,
            0 <= w,
    ;
    assert(y * w + x < w * h) by (nonlinear_arith)
        requires
            0 <= x < w,
            0 <= y < h,
    ;
}

/// Distinct cells of a row-major grid have distinct indices.
pub proof fn lemma_cell_unique(w: int, x1: int, y1: int, x2: int, y2: int)
    requires
        0 <= x1 < w,
        0 <= x2 < w,
    ensures
        (y1 * w + x1 == y2 * w + x2) <==> (x1 == x2 && y1 == y2),
{
    if y1 * w + x1 == y2 * w + x2 {
        vstd::arithmetic::div_mod::lemma_fundamental_div_mod_converse(y1 * w + x1, w, y1, x1);
        vstd::arithmetic::div_mod::lemma_fundamental_div_mod_converse(y2 * w + x2, w, y2, x2);
    }
}

} // verus!
