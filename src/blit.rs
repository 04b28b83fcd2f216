use vstd::prelude::*;
use crate::types::{Color, Image, Rect, Vec2i, px_of, lemma_cell_in_grid, lemma_cell_unique};

verus! {

/// One channel of "source over destination" for premultiplied pixels:
/// `s + d * (1 - a / 255)`, rounded to the nearest integer and saturated at 255.
pub open spec fn over_channel(s: u8, d: u8, a: u8) -> u8 {
    let v = s as int + (d as int * (255 - a as int) + 127) / 255;
    if v > 255 {
        255
    } else {
        v as u8
    }
}

/// The premultiplied "over" operator on whole pixels, alpha included.
pub open spec fn over(s: Color, d: Color) -> Color {
    (over_channel(s.0, d.0, s.3), over_channel(s.1, d.1, s.3), over_channel(s.2, d.2, s.3), over_channel(s.3, d.3, s.3))
}

/// First column offset of the blitted rectangle that lands inside a destination `w` wide.
pub open spec fn clip_lo(to: int) -> int {
    if to < 0 {
        -to
    } else {
        0
    }
}

/// One past the last column offset of a `len`-wide rectangle placed at `to`
/// that lands inside a destination `w` wide.
pub open spec fn clip_hi(to: int, len: int, w: int) -> int {
    if len < w - to {
        len
    } else {
        w - to
    }
}

/// The source column offset sampled for destination column offset `k`:
/// mirrored within the copied columns when `flip` is set.
pub open spec fn src_col(k: int, to: int, len: int, w: int, flip: bool) -> int {
    if flip {
        clip_lo(to) + clip_hi(to, len, w) - 1 - k
    } else {
        k
    }
}

/// Whether destination pixel `(x, y)` lies under the rectangle `from` placed at `to`.
pub open spec fn covered(from: Rect, to: Vec2i, x: int, y: int) -> bool {
    &&& 0 <= x - to.x < from.sz.x
    &&& 0 <= y - to.y < from.sz.y
}

/// The pixel at `(x, y)` of a destination buffer `w` wide after blitting `from` of
/// `src` at `to`.
pub open spec fn blit_at(
    buf: Seq<Color>,
    w: int,
    src: Image,
    from: Rect,
    to: Vec2i,
    flip: bool,
    x: int,
    y: int,
) -> Color {
    if covered(from, to, x, y) {
        let sx = from.pos.x + src_col(x - to.x, to.x as int, from.sz.x as int, w, flip);
        let sy = from.pos.y + (y - to.y);
        over(src.px(sx, sy), px_of(buf, w, x, y))
    } else {
        px_of(buf, w, x, y)
    }
}

/// A destination buffer `w` wide after blitting `from` of `src` at `to`.
pub open spec fn blit_buf(
    buf: Seq<Color>,
    w: int,
    src: Image,
    from: Rect,
    to: Vec2i,
    flip: bool,
) -> Seq<Color> {
    Seq::new(buf.len(), |i: int| blit_at(buf, w, src, from, to, flip, i % w, i / w))
}

/// Whether `from` lies inside the bounds of `src`.
pub open spec fn blit_source_ok(src: Image, from: Rect) -> bool {
    &&& from.wf()
    &&& 0 <= from.pos.x
    &&& 0 <= from.pos.y
    &&& from.pos.x + from.sz.x <= src.sz.x
    &&& from.pos.y + from.sz.y <= src.sz.y
}

fn over_channel_exec(s: u8, d: u8, a: u8) -> (r: u8)
    ensures
        r == over_channel(s, d, a),
{
    let inv: u32 = 255 - a as u32;
    assert(d as u32 * inv <= 255 * 255) by (nonlinear_arith)
        requires
            d <= 255,
            inv <= 255,
    ;
    let v: u32 = s as u32 + (d as u32 * inv + 127) / 255;
    if v > 255 {
        255
    } else {
        v as u8
    }
}

/// Composites premultiplied pixel `s` over `d`.
pub fn over_pixel(s: Color, d: Color) -> (r: Color)
    ensures
        r == over(s, d),
{
    (
        over_channel_exec(s.0, d.0, s.3),
        over_channel_exec(s.1, d.1, s.3),
        over_channel_exec(s.2, d.2, s.3),
        over_channel_exec(s.3, d.3, s.3),
    )
}

/// Every index of a `w` by `h` row-major grid names the cell `(i % w, i / w)`.
pub proof fn lemma_index_cell(w: int, h: int, i: int)
    requires
        0 <= h,
        0 <= i < w * h,
    ensures
        0 <= i % w < w,
        0 <= i / w < h,
        i == (i / w) * w + i % w,
{
    if w <= 0 {
        assert(w * h <= 0) by (nonlinear_arith)
            requires
                w <= 0,
                0 <= h,
        ;
    }
    vstd::arithmetic::div_mod::lemma_fundamental_div_mod(i, w);
    vstd::arithmetic::div_mod::lemma_mod_bound(i, w);
    assert(i / w >= 0) by {
        vstd::arithmetic::div_mod::lemma_div_pos_is_pos(i, w);
    }
    let q = i / w;
    let r = i % w;
    assert(q < h) by (nonlinear_arith)
        requires
            i == w * q + r,
            0 <= r,
            0 < w,
            i < w * h,
    ;
    assert(q * w == w * q) by (nonlinear_arith);
}

/// Two buffers of a `w` by `h` image that agree on every pixel are equal.
pub proof fn lemma_buffers_equal(a: Seq<Color>, b: Seq<Color>, w: int, h: int)
    requires
        0 <= h,
        a.len() == w * h,
        b.len() == w * h,
        forall|x: int, y: int| 0 <= x < w && 0 <= y < h ==> #[trigger] px_of(a, w, x, y) == px_of(b, w, x, y),
    ensures
        a == b,
{
    assert forall|i: int| 0 <= i < a.len() implies a[i] == b[i] by {
        lemma_index_cell(w, h, i);
        assert(px_of(a, w, i % w, i / w) == px_of(b, w, i % w, i / w));
    }
    assert(a =~= b);
}

/// The buffer of a blit, read back pixel by pixel.
pub proof fn lemma_blit_buf_px(
    buf: Seq<Color>,
    w: int,
    h: int,
    src: Image,
    from: Rect,
    to: Vec2i,
    flip: bool,
    x: int,
    y: int,
)
    requires
        buf.len() == w * h,
        0 <= x < w,
        0 <= y < h,
    ensures
        px_of(blit_buf(buf, w, src, from, to, flip), w, x, y) == blit_at(buf, w, src, from, to, flip, x, y),
{
    lemma_cell_in_grid(w, h, x, y);
    let i = y * w + x;
    vstd::arithmetic::div_mod::lemma_fundamental_div_mod_converse(i, w, y, x);
}

/// Every pixel of `src` inside `from` is fully opaque.
pub open spec fn opaque_region(src: Image, from: Rect) -> bool {
    forall|x: int, y: int|
        from.pos.x <= x < from.pos.x + from.sz.x && from.pos.y <= y < from.pos.y + from.sz.y
            ==> (#[trigger] src.px(x, y)).3 == 255
}

/// The source pixel that a blit samples for destination pixel `(x, y)`.
pub open spec fn sampled(w: int, src: Image, from: Rect, to: Vec2i, flip: bool, x: int, y: int) -> Color {
    src.px(
        from.pos.x + src_col(x - to.x, to.x as int, from.sz.x as int, w, flip),
        from.pos.y + (y - to.y),
    )
}

/// An opaque source pixel composited over anything gives the source pixel.
pub proof fn lemma_over_opaque(s: Color, d: Color)
    requires
        s.3 == 255,
    ensures
        over(s, d) == s,
{
}

/// Blitting a fully opaque rectangle replaces every destination pixel it covers
/// with the source pixel exactly, whatever the destination held before.
pub proof fn lemma_opaque_blit_replaces(
    buf: Seq<Color>,
    w: int,
    h: int,
    src: Image,
    from: Rect,
    to: Vec2i,
    flip: bool,
    x: int,
    y: int,
)
    requires
        0 <= h,
        buf.len() == w * h,
        blit_source_ok(src, from),
        opaque_region(src, from),
        0 <= x < w,
        0 <= y < h,
        covered(from, to, x, y),
    ensures
        px_of(blit_buf(buf, w, src, from, to, flip), w, x, y) == sampled(w, src, from, to, flip, x, y),
{
    lemma_blit_buf_px(buf, w, h, src, from, to, flip, x, y);
    let sx = from.pos.x + src_col(x - to.x, to.x as int, from.sz.x as int, w, flip);
    let sy = from.pos.y + (y - to.y);
    assert(src.px(sx, sy).3 == 255);
    lemma_over_opaque(src.px(sx, sy), px_of(buf, w, x, y));
}

/// Blitting a fully opaque rectangle twice to the same place gives the same
/// buffer as blitting it once.
pub proof fn lemma_opaque_blit_idempotent(
    buf: Seq<Color>,
    w: int,
    h: int,
    src: Image,
    from: Rect,
    to: Vec2i,
    flip: bool,
)
    requires
        0 <= h,
        buf.len() == w * h,
        blit_source_ok(src, from),
        opaque_region(src, from),
    ensures
        blit_buf(blit_buf(buf, w, src, from, to, flip), w, src, from, to, flip) == blit_buf(
            buf,
            w,
            src,
            from,
            to,
            flip,
        ),
{
    let once = blit_buf(buf, w, src, from, to, flip);
    let twice = blit_buf(once, w, src, from, to, flip);
    assert forall|x: int, y: int| 0 <= x < w && 0 <= y < h implies #[trigger] px_of(twice, w, x, y)
        == px_of(once, w, x, y) by {
        lemma_blit_buf_px(buf, w, h, src, from, to, flip, x, y);
        lemma_blit_buf_px(once, w, h, src, from, to, flip, x, y);
        if covered(from, to, x, y) {
            lemma_opaque_blit_replaces(buf, w, h, src, from, to, flip, x, y);
            lemma_opaque_blit_replaces(once, w, h, src, from, to, flip, x, y);
        }
    }
    lemma_buffers_equal(twice, once, w, h);
}

/// A blit whose destination rectangle lies wholly outside the destination
/// leaves the buffer unchanged.
pub proof fn lemma_blit_outside_unchanged(
    buf: Seq<Color>,
    w: int,
    h: int,
    src: Image,
    from: Rect,
    to: Vec2i,
    flip: bool,
)
    requires
        0 <= h,
        buf.len() == w * h,
        to.x + from.sz.x <= 0 || w <= to.x || to.y + from.sz.y <= 0 || h <= to.y,
    ensures
        blit_buf(buf, w, src, from, to, flip) == buf,
{
    let out = blit_buf(buf, w, src, from, to, flip);
    assert forall|x: int, y: int| 0 <= x < w && 0 <= y < h implies #[trigger] px_of(out, w, x, y)
        == px_of(buf, w, x, y) by {
        lemma_blit_buf_px(buf, w, h, src, from, to, flip, x, y);
    }
    lemma_buffers_equal(out, buf, w, h);
}

/// Of two blits of equally sized rectangles to the same place, a fully opaque
/// later one hides the earlier one completely: the result is as if only the
/// later blit had been made.
pub proof fn lemma_later_opaque_blit_wins(
    buf: Seq<Color>,
    w: int,
    h: int,
    src1: Image,
    from1: Rect,
    flip1: bool,
    src2: Image,
    from2: Rect,
    flip2: bool,
    to: Vec2i,
)
    requires
        0 <= h,
        buf.len() == w * h,
        blit_source_ok(src1, from1),
        blit_source_ok(src2, from2),
        opaque_region(src2, from2),
        from1.sz == from2.sz,
    ensures
        blit_buf(blit_buf(buf, w, src1, from1, to, flip1), w, src2, from2, to, flip2) == blit_buf(
            buf,
            w,
            src2,
            from2,
            to,
            flip2,
        ),
{
    let first = blit_buf(buf, w, src1, from1, to, flip1);
    let both = blit_buf(first, w, src2, from2, to, flip2);
    let only = blit_buf(buf, w, src2, from2, to, flip2);
    assert forall|x: int, y: int| 0 <= x < w && 0 <= y < h implies #[trigger] px_of(both, w, x, y)
        == px_of(only, w, x, y) by {
        lemma_blit_buf_px(buf, w, h, src1, from1, to, flip1, x, y);
        lemma_blit_buf_px(first, w, h, src2, from2, to, flip2, x, y);
        lemma_blit_buf_px(buf, w, h, src2, from2, to, flip2, x, y);
        if covered(from2, to, x, y) {
            lemma_opaque_blit_replaces(first, w, h, src2, from2, to, flip2, x, y);
            lemma_opaque_blit_replaces(buf, w, h, src2, from2, to, flip2, x, y);
        }
    }
    lemma_buffers_equal(both, only, w, h);
}

impl Image {
    /// Composites the rectangle `from` of `src` over this image with its top-left
    /// corner at `to`, mirrored along x when `flip` is set. Only the part that
    /// falls inside this image is written; a rectangle wholly outside leaves the
    /// image as it was.
    pub fn bitblt(&mut self, src: &Image, from: Rect, to: Vec2i, flip: bool)
        requires
            old(self).wf(),
            src.wf(),
            blit_source_ok(*src, from),
        ensures
            final(self).wf(),
            final(self).sz == old(self).sz,
            final(self).buffer@ == blit_buf(old(self).buffer@, old(self).sz.x as int, *src, from, to, flip),
    {
        let ghost orig = *self;
        let w: i64 = self.sz.x as i64;
        let h: i64 = self.sz.y as i64;
        let ghost sh: int = src.sz.y as int;
        let wu: usize = self.sz.x as usize;
        let sw: usize = src.sz.x as usize;
        let n = self.buffer.len();
        let sn = src.buffer.len();
        let tx: i64 = to.x as i64;
        let ty: i64 = to.y as i64;
        let fx: i64 = from.pos.x as i64;
        let fy: i64 = from.pos.y as i64;
        let fw: i64 = from.sz.x as i64;
        let fh: i64 = from.sz.y as i64;
        let x_lo: i64 = if tx < 0 { -tx } else { 0 };
        let x_hi: i64 = if fw < w - tx { fw } else { w - tx };
        let y_lo: i64 = if ty < 0 { -ty } else { 0 };
        let y_hi: i64 = if fh < h - ty { fh } else { h - ty };
        let mut m: i64 = y_lo;
        while m < y_hi
            invariant
                self.sz == orig.sz,
                self.wf(),
                self.buffer@.len() == n,
                orig.wf(),
                src.wf(),
                blit_source_ok(*src, from),
                sn == src.buffer@.len(),
                w == orig.sz.x,
                wu == w,
                h == orig.sz.y,
                sw == src.sz.x,
                sh == src.sz.y,
                tx == to.x,
                ty == to.y,
                fx == from.pos.x,
                fy == from.pos.y,
                fw == from.sz.x,
                fh == from.sz.y,
                x_lo == clip_lo(tx as int),
                x_hi == clip_hi(tx as int, fw as int, w as int),
                y_lo == clip_lo(ty as int),
                y_hi == clip_hi(ty as int, fh as int, h as int),
                y_lo <= m,
                m <= y_hi || y_hi < y_lo,
                forall|x: int, y: int|
                    orig.in_bounds(x, y) ==> #[trigger] self.px(x, y) == if y - ty < m {
                        blit_at(orig.buffer@, w as int, *src, from, to, flip, x, y)
                    } else {
                        orig.px(x, y)
                    },
            decreases y_hi - m,
        {
            let mut k: i64 = x_lo;
            while k < x_hi
                invariant
                    self.sz == orig.sz,
                    self.wf(),
                    self.buffer@.len() == n,
                    orig.wf(),
                    src.wf(),
                    blit_source_ok(*src, from),
                    sn == src.buffer@.len(),
                    w == orig.sz.x,
                    wu == w,
                    h == orig.sz.y,
                    sw == src.sz.x,
                    sh == src.sz.y,
                    tx == to.x,
                    ty == to.y,
                    fx == from.pos.x,
                    fy == from.pos.y,
                    fw == from.sz.x,
                    fh == from.sz.y,
                    x_lo == clip_lo(tx as int),
                    x_hi == clip_hi(tx as int, fw as int, w as int),
                    y_lo == clip_lo(ty as int),
                    y_hi == clip_hi(ty as int, fh as int, h as int),
                    y_lo <= m < y_hi,
                    x_lo <= k,
                    k <= x_hi || x_hi < x_lo,
                    forall|x: int, y: int|
                        orig.in_bounds(x, y) ==> #[trigger] self.px(x, y) == if y - ty < m || (y - ty
                            == m && x - tx < k) {
                            blit_at(orig.buffer@, w as int, *src, from, to, flip, x, y)
                        } else {
                            orig.px(x, y)
                        },
                decreases x_hi - k,
            {
                let sx: i64 = if flip { x_lo + x_hi - 1 - k } else { k };
                proof {
                    lemma_cell_in_grid(sw as int, sh, (fx + sx) as int, (fy + m) as int);
                    lemma_cell_in_grid(w as int, h as int, (tx + k) as int, (ty + m) as int);
                }
                let si: usize = ((fy + m) as usize) * sw + ((fx + sx) as usize);
                let di: usize = ((ty + m) as usize) * wu + ((tx + k) as usize);
                let p = over_pixel(src.buffer[si], self.buffer[di]);
                let ghost before = *self;
                self.buffer[di] = p;
                proof {
                    assert forall|x: int, y: int| orig.in_bounds(x, y) implies #[trigger] self.px(
                        x,
                        y,
                    ) == if y - ty < m || (y - ty == m && x - tx < k + 1) {
                        blit_at(orig.buffer@, w as int, *src, from, to, flip, x, y)
                    } else {
                        orig.px(x, y)
                    } by {
                        lemma_cell_unique(w as int, x, y, (tx + k) as int, (ty + m) as int);
                        lemma_cell_in_grid(w as int, h as int, x, y);
                        assert(before.px(x, y) == if y - ty < m || (y - ty == m && x - tx < k) {
                            blit_at(orig.buffer@, w as int, *src, from, to, flip, x, y)
                        } else {
                            orig.px(x, y)
                        });
                    }
                }
                k += 1;
            }
            m += 1;
        }
        proof {
            let target = blit_buf(orig.buffer@, w as int, *src, from, to, flip);
            assert forall|x: int, y: int| 0 <= x < w && 0 <= y < h implies #[trigger] px_of(
                self.buffer@,
                w as int,
                x,
                y,
            ) == px_of(target, w as int, x, y) by {
                lemma_blit_buf_px(orig.buffer@, w as int, h as int, *src, from, to, flip, x, y);
                assert(self.px(x, y) == blit_at(orig.buffer@, w as int, *src, from, to, flip, x, y));
            }
            lemma_buffers_equal(self.buffer@, target, w as int, h as int);
        }
    }
}

} // verus!
