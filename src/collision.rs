use vstd::prelude::*;
use crate::tiles::{Tilemap, TILE_SZ};
use crate::types::{Rect, Vec2i};

verus! {

/// A signed displacement along each axis: how far an actor has to move to just
/// touch a tile, signed along its direction of travel.
#[derive(PartialEq, Eq, Structural, Clone, Copy, Debug)]
pub struct Overlap {
    pub x: i64,
    pub y: i64,
}

/// The outcome of one collision step.
#[derive(PartialEq, Eq, Structural, Clone, Copy, Debug)]
pub enum Resolution {
    /// No sample point lies on a solid tile.
    Clear,
    /// The actor touches a tile without entering it; nothing moves.
    Touching,
    /// The actor was moved this far along x and its x velocity zeroed.
    MovedX(i64),
    /// The actor was moved this far along y, its y velocity zeroed and its jump ended.
    MovedY(i64),
    /// Every overlap contradicts a displacement already made this step: the actor
    /// is squashed, and the game decides what that means.
    Unresolved,
}

/// A moving body: its box, its velocity, and whether it is in a jump.
#[derive(PartialEq, Eq, Structural, Clone, Copy, Debug)]
pub struct Actor {
    pub shape: Rect,
    pub vx: i32,
    pub vy: i32,
    pub jumping: bool,
}

/// Sample point `k` (of nine) of a box: `pos + (i * (sz.x / 2), j * (sz.y / 2))`
/// for `i = k / 3` and `j = k % 3`, so corners, edge midpoints and centre.
pub open spec fn sample_point(shape: Rect, k: int) -> (int, int) {
    (shape.pos.x + (k / 3) * (shape.sz.x / 2), shape.pos.y + (k % 3) * (shape.sz.y / 2))
}

/// How far a box moving with velocity signs `(vx, vy)` must shift to just touch
/// the tile whose corner is `tile`.
pub open spec fn overlap_of(tile: Vec2i, shape: Rect, vx: int, vy: int) -> Overlap {
    Overlap {
        x: (if vx > 0 {
            tile.x - (shape.pos.x + shape.sz.x)
        } else {
            tile.x + TILE_SZ - shape.pos.x
        }) as i64,
        y: (if vy > 0 {
            tile.y - (shape.pos.y + shape.sz.y)
        } else {
            tile.y + TILE_SZ - shape.pos.y
        }) as i64,
    }
}

/// The overlaps with solid tiles found at the first `n` sample points, in order.
pub open spec fn overlaps_upto(map: Tilemap, shape: Rect, vx: int, vy: int, n: nat) -> Seq<Overlap>
    decreases n,
{
    if n == 0 {
        Seq::empty()
    } else {
        let prev = overlaps_upto(map, shape, vx, vy, (n - 1) as nat);
        let p = sample_point(shape, n - 1);
        let t = map.spec_tile_at(p.0, p.1);
        if t.1.solid {
            prev.push(overlap_of(t.0, shape, vx, vy))
        } else {
            prev
        }
    }
}

/// The overlaps with solid tiles at all nine sample points, in sampling order.
pub open spec fn sample_overlaps(map: Tilemap, shape: Rect, vx: int, vy: int) -> Seq<Overlap> {
    overlaps_upto(map, shape, vx, vy, 9)
}

pub open spec fn abs(v: int) -> int {
    if v < 0 {
        -v
    } else {
        v
    }
}

/// A displacement `d` may be made on an axis where `acc` has already been made
/// this step when nothing was made yet or `d` has the same sign.
pub open spec fn agrees(d: int, acc: int) -> bool {
    acc == 0 || (d > 0 && acc > 0) || (d < 0 && acc < 0)
}

/// First-match resolution over `ovs`, starting at index `i`.
pub open spec fn resolve_from(ovs: Seq<Overlap>, applied: Overlap, i: int) -> Resolution
    decreases ovs.len() - i,
{
    if 0 <= i < ovs.len() {
        let ov = ovs[i];
        if ov.x == 0 && ov.y == 0 {
            Resolution::Touching
        } else if abs(ov.x as int) <= abs(ov.y as int) && agrees(ov.x as int, applied.x as int) {
            Resolution::MovedX(ov.x)
        } else if abs(ov.y as int) <= abs(ov.x as int) && agrees(ov.y as int, applied.y as int) {
            Resolution::MovedY(ov.y)
        } else {
            resolve_from(ovs, applied, i + 1)
        }
    } else {
        Resolution::Unresolved
    }
}

/// What `resolve` decides for the overlaps `ovs`, given the displacement
/// `applied` already made this step.
pub open spec fn resolve_spec(ovs: Seq<Overlap>, applied: Overlap) -> Resolution {
    if ovs.len() == 0 {
        Resolution::Clear
    } else {
        resolve_from(ovs, applied, 0)
    }
}

/// `v` kept within `[0, hi]`, the upper bound taking precedence.
pub open spec fn clamp_axis(v: int, hi: int) -> int {
    let a = if v < 0 {
        0
    } else {
        v
    };
    if a > hi {
        hi
    } else {
        a
    }
}

/// The actor after resolution `r` is applied and its box is clamped to the
/// playfield `[0, field.x] x [0, field.y]`.
pub open spec fn after_collision(a: Actor, r: Resolution, field: Vec2i) -> Actor {
    let x: int = match r {
        Resolution::MovedX(d) => a.shape.pos.x + d,
        _ => a.shape.pos.x as int,
    };
    let y: int = match r {
        Resolution::MovedY(d) => a.shape.pos.y + d,
        _ => a.shape.pos.y as int,
    };
    Actor {
        shape: Rect {
            pos: Vec2i {
                x: clamp_axis(x, field.x - a.shape.sz.x) as i32,
                y: clamp_axis(y, field.y - a.shape.sz.y) as i32,
            },
            sz: a.shape.sz,
        },
        vx: if r is MovedX {
            0
        } else {
            a.vx
        },
        vy: if r is MovedY {
            0
        } else {
            a.vy
        },
        jumping: if r is MovedY {
            false
        } else {
            a.jumping
        },
    }
}

/// Bound on any overlap of a box of the `i32` plane with a tile of the `i32` plane.
pub open spec fn overlap_small(ov: Overlap) -> bool {
    -0x10_0000_0000 < ov.x < 0x10_0000_0000 && -0x10_0000_0000 < ov.y < 0x10_0000_0000
}

/// How far the box must shift to just touch the tile at `tile`.
pub fn overlap(tile: Vec2i, shape: Rect, vx: i32, vy: i32) -> (r: Overlap)
    requires
        shape.wf(),
    ensures
        r == overlap_of(tile, shape, vx as int, vy as int),
        overlap_small(r),
{
    let x: i64 = if vx > 0 {
        tile.x as i64 - (shape.pos.x as i64 + shape.sz.x as i64)
    } else {
        tile.x as i64 + TILE_SZ as i64 - shape.pos.x as i64
    };
    let y: i64 = if vy > 0 {
        tile.y as i64 - (shape.pos.y as i64 + shape.sz.y as i64)
    } else {
        tile.y as i64 + TILE_SZ as i64 - shape.pos.y as i64
    };
    Overlap { x, y }
}

/// The overlaps with solid tiles at the nine sample points of `shape`, in order.
pub fn collect_overlaps(map: &Tilemap, shape: Rect, vx: i32, vy: i32) -> (r: Vec<Overlap>)
    requires
        map.wf(),
        shape.wf(),
    ensures
        r@ == sample_overlaps(*map, shape, vx as int, vy as int),
        forall|i: int| 0 <= i < r@.len() ==> overlap_small(#[trigger] r@[i]),
{
    let mut ovs: Vec<Overlap> = Vec::new();
    let mut k: usize = 0;
    while k < 9
        invariant
            map.wf(),
            shape.wf(),
            k <= 9,
            ovs@ == overlaps_upto(*map, shape, vx as int, vy as int, k as nat),
            forall|i: int| 0 <= i < ovs@.len() ==> overlap_small(#[trigger] ovs@[i]),
        decreases 9 - k,
    {
        let i: i64 = (k / 3) as i64;
        let j: i64 = (k % 3) as i64;
        let hx: i64 = shape.sz.x as i64 / 2;
        let hy: i64 = shape.sz.y as i64 / 2;
        assert(i * hx <= shape.sz.x) by (nonlinear_arith)
            requires
                0 <= i <= 2,
                hx == shape.sz.x / 2,
                shape.sz.x >= 0,
        ;
        assert(j * hy <= shape.sz.y) by (nonlinear_arith)
            requires
                0 <= j <= 2,
                hy == shape.sz.y / 2,
                shape.sz.y >= 0,
        ;
        assert(i * hx >= 0) by (nonlinear_arith)
            requires
                0 <= i,
                0 <= hx,
        ;
        assert(j * hy >= 0) by (nonlinear_arith)
            requires
                0 <= j,
                0 <= hy,
        ;
        let px: i64 = shape.pos.x as i64 + i * hx;
        let py: i64 = shape.pos.y as i64 + j * hy;
        let (col, row) = map.cell_at(px, py);
        let (origin, tile) = map.cell(col, row);
        if tile.solid {
            let ov = overlap(origin, shape, vx, vy);
            ovs.push(ov);
        }
        k += 1;
    }
    ovs
}

/// First-match resolution of the overlaps `ovs` in order: the first one that
/// is zero on both axes means touching; otherwise the first that can be
/// undone along its smaller axis without contradicting `applied`, the
/// displacement already made this step, is undone along that axis.
pub fn resolve(ovs: &Vec<Overlap>, applied: Overlap) -> (r: Resolution)
    requires
        forall|i: int| 0 <= i < ovs@.len() ==> (#[trigger] ovs@[i]).x > i64::MIN && ovs@[i].y > i64::MIN,
    ensures
        r == resolve_spec(ovs@, applied),
{
    if ovs.len() == 0 {
        return Resolution::Clear;
    }
    let mut i: usize = 0;
    while i < ovs.len()
        invariant
            i <= ovs@.len(),
            ovs@.len() > 0,
            forall|j: int| 0 <= j < ovs@.len() ==> (#[trigger] ovs@[j]).x > i64::MIN && ovs@[j].y > i64::MIN,
            resolve_spec(ovs@, applied) == resolve_from(ovs@, applied, i as int),
        decreases ovs@.len() - i,
    {
        let ov = ovs[i];
        let ax: i64 = if ov.x < 0 { -ov.x } else { ov.x };
        let ay: i64 = if ov.y < 0 { -ov.y } else { ov.y };
        if ov.x == 0 && ov.y == 0 {
            return Resolution::Touching;
        }
        let x_ok = applied.x == 0 || (ov.x > 0 && applied.x > 0) || (ov.x < 0 && applied.x < 0);
        let y_ok = applied.y == 0 || (ov.y > 0 && applied.y > 0) || (ov.y < 0 && applied.y < 0);
        if ax <= ay && x_ok {
            return Resolution::MovedX(ov.x);
        } else if ay <= ax && y_ok {
            return Resolution::MovedY(ov.y);
        }
        i += 1;
    }
    Resolution::Unresolved
}

fn clamp_axis_exec(v: i64, hi: i64) -> (r: i64)
    ensures
        r == clamp_axis(v as int, hi as int),
{
    let a = if v < 0 {
        0
    } else {
        v
    };
    if a > hi {
        hi
    } else {
        a
    }
}

impl Actor {
    /// One collision step against the solid tiles of `map`: samples the box,
    /// resolves the overlaps found given `applied`, the displacement already
    /// made this step, applies the outcome, then clamps the box to the playfield
    /// `[0, field.x] x [0, field.y]`.
    pub fn collide(&mut self, map: &Tilemap, applied: Overlap, field: Vec2i) -> (r: Resolution)
        requires
            old(self).shape.wf(),
            map.wf(),
            field.x >= 0,
            field.y >= 0,
        ensures
            r == resolve_spec(
                sample_overlaps(*map, old(self).shape, old(self).vx as int, old(self).vy as int),
                applied,
            ),
            *final(self) == after_collision(*old(self), r, field),
    {
        let ovs = collect_overlaps(map, self.shape, self.vx, self.vy);
        let r = resolve(&ovs, applied);
        let mut x: i64 = self.shape.pos.x as i64;
        let mut y: i64 = self.shape.pos.y as i64;
        match r {
            Resolution::MovedX(d) => {
                proof {
                    lemma_resolved_is_some_overlap(ovs@, applied, 0);
                }
                x = x + d;
                self.vx = 0;
            },
            Resolution::MovedY(d) => {
                proof {
                    lemma_resolved_is_some_overlap(ovs@, applied, 0);
                }
                y = y + d;
                self.vy = 0;
                self.jumping = false;
            },
            _ => {},
        }
        let cx = clamp_axis_exec(x, field.x as i64 - self.shape.sz.x as i64);
        let cy = clamp_axis_exec(y, field.y as i64 - self.shape.sz.y as i64);
        self.shape.pos = Vec2i { x: cx as i32, y: cy as i32 };
        r
    }
}

/// An actor moving right whose every sampled overlap comes from one solid tile,
/// and which is more of a horizontal than a vertical collision, is moved back
/// so that its right edge lies exactly on the tile's left edge, and stops
/// horizontally (when that place is inside the playfield).
pub proof fn lemma_stops_at_tile_from_left(a: Actor, map: Tilemap, tile: Vec2i, field: Vec2i)
    requires
        a.shape.wf(),
        a.vx > 0,
        sample_overlaps(map, a.shape, a.vx as int, a.vy as int).len() > 0,
        forall|i: int|
            0 <= i < sample_overlaps(map, a.shape, a.vx as int, a.vy as int).len() ==> #[trigger] sample_overlaps(
                map,
                a.shape,
                a.vx as int,
                a.vy as int,
            )[i] == overlap_of(tile, a.shape, a.vx as int, a.vy as int),
        overlap_of(tile, a.shape, a.vx as int, a.vy as int).x != 0,
        abs(overlap_of(tile, a.shape, a.vx as int, a.vy as int).x as int) <= abs(
            overlap_of(tile, a.shape, a.vx as int, a.vy as int).y as int,
        ),
        0 <= tile.x - a.shape.sz.x <= field.x - a.shape.sz.x,
    ensures
        resolve_spec(sample_overlaps(map, a.shape, a.vx as int, a.vy as int), Overlap { x: 0, y: 0 })
            == Resolution::MovedX(overlap_of(tile, a.shape, a.vx as int, a.vy as int).x),
        after_collision(
            a,
            Resolution::MovedX(overlap_of(tile, a.shape, a.vx as int, a.vy as int).x),
            field,
        ).shape.pos.x + a.shape.sz.x == tile.x,
        after_collision(
            a,
            Resolution::MovedX(overlap_of(tile, a.shape, a.vx as int, a.vy as int).x),
            field,
        ).vx == 0,
{
    let ovs = sample_overlaps(map, a.shape, a.vx as int, a.vy as int);
    assert(ovs[0] == overlap_of(tile, a.shape, a.vx as int, a.vy as int));
}

/// When the first overlap found is strictly smaller along x than along y and
/// nothing has been displaced yet this step, the x axis is resolved and the y
/// position and velocity are left for a later step (only the playfield clamp
/// applies to y).
pub proof fn lemma_smaller_axis_first(a: Actor, ovs: Seq<Overlap>, field: Vec2i)
    requires
        a.shape.wf(),
        field.y >= 0,
        ovs.len() > 0,
        abs(ovs[0].x as int) < abs(ovs[0].y as int),
    ensures
        resolve_spec(ovs, Overlap { x: 0, y: 0 }) == Resolution::MovedX(ovs[0].x),
        after_collision(a, Resolution::MovedX(ovs[0].x), field).shape.pos.y == clamp_axis(
            a.shape.pos.y as int,
            field.y - a.shape.sz.y,
        ),
        after_collision(a, Resolution::MovedX(ovs[0].x), field).vy == a.vy,
        after_collision(a, Resolution::MovedX(ovs[0].x), field).vx == 0,
{
}

/// With no sample point on a solid tile no overlaps are found.
proof fn lemma_no_solid_no_overlaps(map: Tilemap, shape: Rect, vx: int, vy: int, n: nat)
    requires
        n <= 9,
        forall|k: int|
            0 <= k < 9 ==> !(#[trigger] map.spec_tile_at(sample_point(shape, k).0, sample_point(shape, k).1)).1.solid,
    ensures
        overlaps_upto(map, shape, vx, vy, n).len() == 0,
    decreases n,
{
    if n > 0 {
        lemma_no_solid_no_overlaps(map, shape, vx, vy, (n - 1) as nat);
        let p = sample_point(shape, n - 1);
        assert(!map.spec_tile_at(p.0, p.1).1.solid);
    }
}

/// An actor none of whose sample points lies on a solid tile (one falling
/// down a pit, say) collides with nothing: it keeps its velocity, its jump and
/// its place, but for the clamp to the playfield.
pub proof fn lemma_clear_fall(a: Actor, map: Tilemap, field: Vec2i)
    requires
        a.shape.wf(),
        field.x >= 0,
        field.y >= 0,
        forall|k: int|
            0 <= k < 9 ==> !(#[trigger] map.spec_tile_at(
                sample_point(a.shape, k).0,
                sample_point(a.shape, k).1,
            )).1.solid,
    ensures
        resolve_spec(sample_overlaps(map, a.shape, a.vx as int, a.vy as int), Overlap { x: 0, y: 0 })
            == Resolution::Clear,
        after_collision(a, Resolution::Clear, field).shape.pos.x == clamp_axis(
            a.shape.pos.x as int,
            field.x - a.shape.sz.x,
        ),
        after_collision(a, Resolution::Clear, field).shape.pos.y == clamp_axis(
            a.shape.pos.y as int,
            field.y - a.shape.sz.y,
        ),
        after_collision(a, Resolution::Clear, field).vx == a.vx,
        after_collision(a, Resolution::Clear, field).vy == a.vy,
        after_collision(a, Resolution::Clear, field).jumping == a.jumping,
{
    lemma_no_solid_no_overlaps(map, a.shape, a.vx as int, a.vy as int, 9);
}

/// An actor falling onto a solid tile `t` (the first overlap found is with
/// `t`, and is smaller along y than along x) comes to rest with its bottom edge
/// on the tile's top edge, stops falling and ends its jump, when that resting
/// place is inside the playfield.
pub proof fn lemma_lands_on_tile(a: Actor, map: Tilemap, t: Vec2i, field: Vec2i)
    requires
        a.shape.wf(),
        a.vy > 0,
        field.x >= 0,
        sample_overlaps(map, a.shape, a.vx as int, a.vy as int).len() > 0,
        sample_overlaps(map, a.shape, a.vx as int, a.vy as int)[0] == overlap_of(
            t,
            a.shape,
            a.vx as int,
            a.vy as int,
        ),
        abs(overlap_of(t, a.shape, a.vx as int, a.vy as int).y as int) < abs(
            overlap_of(t, a.shape, a.vx as int, a.vy as int).x as int,
        ),
        a.shape.sz.y <= t.y <= field.y,
    ensures
        resolve_spec(sample_overlaps(map, a.shape, a.vx as int, a.vy as int), Overlap { x: 0, y: 0 })
            == Resolution::MovedY(overlap_of(t, a.shape, a.vx as int, a.vy as int).y),
        after_collision(
            a,
            Resolution::MovedY(overlap_of(t, a.shape, a.vx as int, a.vy as int).y),
            field,
        ).shape.pos.y + a.shape.sz.y == t.y,
        after_collision(
            a,
            Resolution::MovedY(overlap_of(t, a.shape, a.vx as int, a.vy as int).y),
            field,
        ).shape.pos.x == clamp_axis(a.shape.pos.x as int, field.x - a.shape.sz.x),
        after_collision(
            a,
            Resolution::MovedY(overlap_of(t, a.shape, a.vx as int, a.vy as int).y),
            field,
        ).vy == 0,
        !after_collision(
            a,
            Resolution::MovedY(overlap_of(t, a.shape, a.vx as int, a.vy as int).y),
            field,
        ).jumping,
{
}

/// A displacement chosen by the resolver is one of the overlaps it was given.
proof fn lemma_resolved_is_some_overlap(ovs: Seq<Overlap>, applied: Overlap, i: int)
    requires
        0 <= i,
    ensures
        resolve_from(ovs, applied, i) matches Resolution::MovedX(d) ==> exists|j: int|
            0 <= j < ovs.len() && (#[trigger] ovs[j]).x == d,
        resolve_from(ovs, applied, i) matches Resolution::MovedY(d) ==> exists|j: int|
            0 <= j < ovs.len() && (#[trigger] ovs[j]).y == d,
    decreases ovs.len() - i,
{
    if i < ovs.len() {
        lemma_resolved_is_some_overlap(ovs, applied, i + 1);
    }
}

} // verus!
