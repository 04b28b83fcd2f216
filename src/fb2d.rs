use vstd::prelude::*;
use crate::shapes::{self, HEIGHT, WIDTH, filled_bar, on_line, outlined_bar, painted};
use crate::types::Color;

verus! {

/// Number of pixels of the fixed framebuffer.
pub const FB_LEN: usize = 76800;

/// A fixed `WIDTH` by `HEIGHT` framebuffer and the colour it was last cleared to.
#[derive(Clone, Copy, Hash, Debug)]
pub struct Fb2d {
    pub color: Color,
    pub array: [Color; FB_LEN],
}

impl Fb2d {
    /// A framebuffer filled with `color`.
    pub fn new(color: Color) -> (r: Fb2d)
        ensures
            r.color == color,
            forall|i: int| 0 <= i < FB_LEN ==> r.array@[i] == color,
    {
        let array = [color; FB_LEN];
        Fb2d { color, array }
    }

    /// Fills the framebuffer with `c` and remembers it as the clear colour.
    pub fn clear(&mut self, c: Color)
        ensures
            final(self).color == c,
            forall|i: int| 0 <= i < FB_LEN ==> final(self).array@[i] == c,
    {
        self.color = c;
        shapes::clear(&mut self.array, c);
    }

    /// Fills columns `x0..x1` (end excluded) of row `y` with `c`.
    pub fn hline(&mut self, x0: usize, x1: usize, y: usize, c: Color)
        requires
            y < HEIGHT,
            x0 <= x1,
            x1 < WIDTH,
        ensures
            final(self).color == old(self).color,
            painted(old(self).array@, final(self).array@, |xx: int, yy: int| yy == y && x0 <= xx < x1, c),
    {
        shapes::hline(&mut self.array, x0, x1, y, c);
    }

    /// Fills rows `y0..=y1` of column `x` with `c`.
    pub fn vline(&mut self, x: usize, y0: usize, y1: usize, c: Color)
        requires
            y0 <= y1,
            y1 < HEIGHT,
            x < WIDTH,
        ensures
            final(self).color == old(self).color,
            painted(old(self).array@, final(self).array@, |xx: int, yy: int| xx == x && y0 <= yy <= y1, c),
    {
        shapes::vline(&mut self.array, x, y0, y1, c);
    }

    /// Draws a meter 15 rows tall and about `w` wide, centred horizontally, from
    /// row `starting_height` down; draws nothing when it would reach the bottom row.
    pub fn draw_filled_rect(&mut self, starting_height: usize, w: usize, color: Color)
        requires
            starting_height < HEIGHT - 15 ==> w < WIDTH,
        ensures
            final(self).color == old(self).color,
            starting_height < HEIGHT - 15 ==> painted(
                old(self).array@,
                final(self).array@,
                |x: int, y: int| filled_bar(starting_height as int, w as int, x, y),
                color,
            ),
            starting_height >= HEIGHT - 15 ==> final(self).array@ == old(self).array@,
    {
        shapes::draw_filled_rect(&mut self.array, starting_height, w, color);
    }

    /// Draws the outline of the meter that `draw_filled_rect` fills; draws
    /// nothing when it would reach the bottom row.
    pub fn draw_outlined_rect(&mut self, starting_height: usize, w: usize, color: Color)
        requires
            starting_height < HEIGHT - 15 ==> w < WIDTH,
        ensures
            final(self).color == old(self).color,
            starting_height < HEIGHT - 15 ==> painted(
                old(self).array@,
                final(self).array@,
                |x: int, y: int| outlined_bar(starting_height as int, w as int, x, y),
                color,
            ),
            starting_height >= HEIGHT - 15 ==> final(self).array@ == old(self).array@,
    {
        shapes::draw_outlined_rect(&mut self.array, starting_height, w, color);
    }

    /// Draws the line from `p0` towards `p1` with Bresenham's walk, every
    /// visited pixel but `p1` itself.
    pub fn diagonal_line(&mut self, p0: (usize, usize), p1: (usize, usize), col: Color)
        requires
            p0.0 < WIDTH,
            p1.0 < WIDTH,
            p0.1 < HEIGHT,
            p1.1 < HEIGHT,
        ensures
            final(self).color == old(self).color,
            painted(
                old(self).array@,
                final(self).array@,
                |px: int, py: int| on_line(p0.0 as int, p0.1 as int, p1.0 as int, p1.1 as int, px, py),
                col,
            ),
    {
        shapes::diagonal_line(&mut self.array, p0, p1, col);
    }
}

} // verus!
