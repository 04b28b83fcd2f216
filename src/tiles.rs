use vstd::prelude::*;
use std::rc::Rc;
use crate::types::{Color, Image, Rect, Vec2i};
use crate::blit::{blit_buf, blit_source_ok, lemma_index_cell};

verus! {

/// Width and height of a tile, in pixels.
pub const TILE_SZ: i32 = 16;

/// What the game knows of a tile type.
#[derive(PartialEq, Eq, Structural, Clone, Copy, Debug)]
pub struct Tile {
    pub solid: bool,
}

/// The tile types of a level, indexed by id, and the sheet they are drawn from.
/// Tile `id` is the `id`-th 16 by 16 cell of the sheet, row-major.
pub struct Tileset {
    pub tiles: Vec<Tile>,
    pub texture: Rc<Image>,
}

/// Number of whole tiles across a sheet `w` pixels wide.
pub open spec fn tiles_across(w: int) -> int {
    w / TILE_SZ as int
}

impl Tileset {
    /// The sheet holds a cell for every tile type.
    pub open spec fn wf(&self) -> bool {
        &&& self.texture.wf()
        &&& self.tiles@.len() <= tiles_across(self.texture.sz.x as int) * tiles_across(
            self.texture.sz.y as int,
        )
    }

    /// The sheet rectangle of tile `id`.
    pub open spec fn spec_tile_rect(&self, id: int) -> Rect {
        let across = tiles_across(self.texture.sz.x as int);
        Rect {
            pos: Vec2i {
                x: ((id % across) * TILE_SZ as int) as i32,
                y: ((id / across) * TILE_SZ as int) as i32,
            },
            sz: Vec2i { x: TILE_SZ, y: TILE_SZ },
        }
    }

    pub fn new(tiles: Vec<Tile>, texture: Rc<Image>) -> (r: Tileset)
        ensures
            r.tiles@ == tiles@,
            r.texture == texture,
    {
        Tileset { tiles, texture }
    }

    /// Whether `id` names a tile type of this set.
    pub fn contains(&self, id: usize) -> (r: bool)
        ensures
            r == (id < self.tiles@.len()),
    {
        id < self.tiles.len()
    }

    /// The sheet rectangle of tile `id`, which lies inside the sheet.
    pub fn get_rect(&self, id: usize) -> (r: Rect)
        requires
            self.wf(),
            id < self.tiles@.len(),
        ensures
            r == self.spec_tile_rect(id as int),
            blit_source_ok(*self.texture, r),
    {
        proof {
            lemma_tile_in_sheet(
                self.texture.sz.x as int,
                self.texture.sz.y as int,
                id as int,
            );
        }
        let across: i32 = self.texture.sz.x / TILE_SZ;
        let row: i32 = (id / (across as usize)) as i32;
        let col: i32 = (id % (across as usize)) as i32;
        Rect { pos: Vec2i { x: col * TILE_SZ, y: row * TILE_SZ }, sz: Vec2i { x: TILE_SZ, y: TILE_SZ } }
    }
}

/// A tile id below the number of cells of a sheet names a cell inside the sheet.
pub proof fn lemma_tile_in_sheet(w: int, h: int, id: int)
    requires
        0 <= w,
        0 <= h,
        0 <= id < tiles_across(w) * tiles_across(h),
    ensures
        tiles_across(w) > 0,
        0 <= (id % tiles_across(w)) * TILE_SZ as int,
        (id % tiles_across(w)) * TILE_SZ as int + TILE_SZ as int <= w,
        0 <= (id / tiles_across(w)) * TILE_SZ as int,
        (id / tiles_across(w)) * TILE_SZ as int + TILE_SZ as int <= h,
{
    let a = tiles_across(w);
    let b = tiles_across(h);
    assert(a >= 0 && b >= 0);
    if a == 0 {
        assert(a * b == 0);
    }
    assert(a > 0);
    let q = id / a;
    let r = id % a;
    vstd::arithmetic::div_mod::lemma_fundamental_div_mod(id, a);
    vstd::arithmetic::div_mod::lemma_mod_bound(id, a);
    vstd::arithmetic::div_mod::lemma_div_pos_is_pos(id, a);
    assert(q < b) by (nonlinear_arith)
        requires
            id == a * q + r,
            0 <= r,
            0 < a,
            id < a * b,
    ;
    assert(a * 16 <= w);
    assert(b * 16 <= h);
}

/// A grid of tile ids placed in the world with its top-left corner at `position`.
/// Cell `(col, row)` holds `map[row * dims.0 + col]` and covers the 16 by 16
/// square whose top-left corner is `position + (16 * col, 16 * row)`.
pub struct Tilemap {
    pub position: Vec2i,
    pub dims: (usize, usize),
    pub tileset: Rc<Tileset>,
    pub map: Vec<usize>,
}

/// The cell coordinate, along one axis of `n` cells, of a point at offset `d`
/// from the grid's corner: the floor of `d / 16`, clamped to the grid.
pub open spec fn cell_coord(d: int, n: int) -> int {
    let c = d / TILE_SZ as int;
    if c < 0 {
        0
    } else if c >= n {
        n - 1
    } else {
        c
    }
}

impl Tilemap {
    /// At least one cell, one id per cell, every id a tile of the set, and the
    /// whole grid inside the `i32` plane.
    pub open spec fn wf(&self) -> bool {
        &&& self.tileset.wf()
        &&& self.dims.0 >= 1
        &&& self.dims.1 >= 1
        &&& self.map@.len() == self.dims.0 * self.dims.1
        &&& forall|i: int| 0 <= i < self.map@.len() ==> #[trigger] self.map@[i] < self.tileset.tiles@.len()
        &&& self.position.x + self.dims.0 * TILE_SZ as int <= i32::MAX
        &&& self.position.y + self.dims.1 * TILE_SZ as int <= i32::MAX
    }

    /// The world-space corner of cell `(col, row)`.
    pub open spec fn cell_origin(&self, col: int, row: int) -> Vec2i {
        Vec2i {
            x: (self.position.x + col * TILE_SZ as int) as i32,
            y: (self.position.y + row * TILE_SZ as int) as i32,
        }
    }

    /// The tile type of cell `(col, row)`.
    pub open spec fn cell_tile(&self, col: int, row: int) -> Tile {
        self.tileset.tiles@[self.map@[row * self.dims.0 + col] as int]
    }

    pub open spec fn col_of(&self, x: int) -> int {
        cell_coord(x - self.position.x, self.dims.0 as int)
    }

    pub open spec fn row_of(&self, y: int) -> int {
        cell_coord(y - self.position.y, self.dims.1 as int)
    }

    /// What `tile_at` returns for the world point `(x, y)`.
    pub open spec fn spec_tile_at(&self, x: int, y: int) -> (Vec2i, Tile) {
        let col = self.col_of(x);
        let row = self.row_of(y);
        (self.cell_origin(col, row), self.cell_tile(col, row))
    }

    pub fn new(position: Vec2i, dims: (usize, usize), tileset: Rc<Tileset>, map: Vec<usize>) -> (r:
        Tilemap)
        requires
            tileset.wf(),
            dims.0 >= 1,
            dims.1 >= 1,
            map@.len() == dims.0 * dims.1,
            forall|i: int| 0 <= i < map@.len() ==> #[trigger] map@[i] < tileset.tiles@.len(),
            position.x + dims.0 * TILE_SZ as int <= i32::MAX,
            position.y + dims.1 * TILE_SZ as int <= i32::MAX,
        ensures
            r.wf(),
            r.position == position,
            r.dims == dims,
            r.tileset == tileset,
            r.map@ == map@,
    {
        Tilemap { position, dims, tileset, map }
    }

    /// Number of columns and rows.
    pub fn size(&self) -> (r: (usize, usize))
        ensures
            r == self.dims,
    {
        self.dims
    }

    fn cell_coord_exec(d: i64, n: usize) -> (r: usize)
        requires
            n >= 1,
            -0x4_0000_0000 <= d <= 0x4_0000_0000,
        ensures
            r == cell_coord(d as int, n as int),
            r < n,
    {
        proof {
            vstd::arithmetic::div_mod::lemma_fundamental_div_mod(d as int, TILE_SZ as int);
            vstd::arithmetic::div_mod::lemma_mod_bound(d as int, TILE_SZ as int);
        }
        if d < 0 {
            0
        } else {
            let c = d / (TILE_SZ as i64);
            if c as usize >= n {
                n - 1
            } else {
                c as usize
            }
        }
    }

    /// The cell under the world point `(x, y)`, clamped to the grid.
    pub(crate) fn cell_at(&self, x: i64, y: i64) -> (r: (usize, usize))
        requires
            self.wf(),
            i32::MIN <= x <= 2 * (i32::MAX as int),
            i32::MIN <= y <= 2 * (i32::MAX as int),
        ensures
            r.0 == self.col_of(x as int),
            r.1 == self.row_of(y as int),
            r.0 < self.dims.0,
            r.1 < self.dims.1,
    {
        let col = Self::cell_coord_exec(x - self.position.x as i64, self.dims.0);
        let row = Self::cell_coord_exec(y - self.position.y as i64, self.dims.1);
        (col, row)
    }

    /// The world-space corner and the tile type of cell `(col, row)`.
    pub(crate) fn cell(&self, col: usize, row: usize) -> (r: (Vec2i, Tile))
        requires
            self.wf(),
            col < self.dims.0,
            row < self.dims.1,
        ensures
            r == (self.cell_origin(col as int, row as int), self.cell_tile(col as int, row as int)),
    {
        proof {
            crate::types::lemma_cell_in_grid(self.dims.0 as int, self.dims.1 as int, col as int, row as int);
            assert(col * 16 <= self.dims.0 * 16) by (nonlinear_arith)
                requires
                    col < self.dims.0,
            ;
            assert(row * 16 <= self.dims.1 * 16) by (nonlinear_arith)
                requires
                    row < self.dims.1,
            ;
        }
        let _len = self.map.len();
        let id = self.map[row * self.dims.0 + col];
        let origin = Vec2i {
            x: (self.position.x as i64 + (col as i64) * (TILE_SZ as i64)) as i32,
            y: (self.position.y as i64 + (row as i64) * (TILE_SZ as i64)) as i32,
        };
        (origin, self.tileset.tiles[id])
    }

    /// The world-space corner and the tile type of the cell under `p`; a point
    /// outside the grid gets the nearest cell.
    pub fn tile_at(&self, p: Vec2i) -> (r: (Vec2i, Tile))
        requires
            self.wf(),
        ensures
            r == self.spec_tile_at(p.x as int, p.y as int),
    {
        let (col, row) = self.cell_at(p.x as i64, p.y as i64);
        self.cell(col, row)
    }

    /// A buffer `w` pixels wide after the first `n` cells, in row-major order,
    /// have each been blitted from the tile sheet to their world position.
    pub open spec fn drawn(&self, buf: Seq<Color>, w: int, n: nat) -> Seq<Color>
        decreases n,
    {
        if n == 0 {
            buf
        } else {
            let i = n - 1;
            blit_buf(
                self.drawn(buf, w, (n - 1) as nat),
                w,
                *self.tileset.texture,
                self.tileset.spec_tile_rect(self.map@[i] as int),
                self.cell_origin(i % self.dims.0 as int, i / self.dims.0 as int),
                false,
            )
        }
    }

    /// Draws every cell of the grid into `fb`, row by row.
    pub fn draw(&self, fb: &mut Image)
        requires
            self.wf(),
            old(fb).wf(),
        ensures
            final(fb).wf(),
            final(fb).sz == old(fb).sz,
            final(fb).buffer@ == self.drawn(old(fb).buffer@, old(fb).sz.x as int, self.map@.len()),
    {
        let n = self.map.len();
        let cols = self.dims.0;
        let mut i: usize = 0;
        while i < n
            invariant
                self.wf(),
                n == self.map@.len(),
                cols == self.dims.0,
                i <= n,
                fb.wf(),
                fb.sz == old(fb).sz,
                fb.buffer@ == self.drawn(old(fb).buffer@, old(fb).sz.x as int, i as nat),
            decreases n - i,
        {
            proof {
                lemma_index_cell(cols as int, self.dims.1 as int, i as int);
            }
            let col = i % cols;
            let row = i / cols;
            let (origin, _tile) = self.cell(col, row);
            let id = self.map[i];
            let from = self.tileset.get_rect(id);
            fb.bitblt(&self.tileset.texture, from, origin, false);
            i += 1;
        }
    }
}

} // verus!
