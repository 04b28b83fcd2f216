use engine::collision::{collect_overlaps, overlap, resolve, Actor, Overlap, Resolution};
use engine::tiles::{Tile, Tilemap, Tileset};
use engine::types::{Image, Rect, Vec2i};
use std::rc::Rc;

const SOLID: usize = 0;
const AIR: usize = 1;

fn tileset() -> Rc<Tileset> {
    let sheet = Rc::new(Image::new(Vec2i { x: 32, y: 16 }));
    Rc::new(Tileset::new(vec![Tile { solid: true }, Tile { solid: false }], sheet))
}

/// A 20 by 20 grid of air with the given cells solid.
fn map_with(solid: &[(usize, usize)]) -> Tilemap {
    let mut cells = vec![AIR; 400];
    for &(c, r) in solid {
        cells[r * 20 + c] = SOLID;
    }
    Tilemap::new(Vec2i { x: 0, y: 0 }, (20, 20), tileset(), cells)
}

fn actor(x: i32, y: i32, w: i32, h: i32, vx: i32, vy: i32) -> Actor {
    Actor { shape: Rect { pos: Vec2i { x, y }, sz: Vec2i { x: w, y: h } }, vx, vy, jumping: true }
}

const FIELD: Vec2i = Vec2i { x: 320, y: 320 };
const NONE: Overlap = Overlap { x: 0, y: 0 };

#[test]
fn overlap_vector_signs_follow_travel() {
    let shape = Rect { pos: Vec2i { x: 10, y: 20 }, sz: Vec2i { x: 8, y: 12 } };
    let tile = Vec2i { x: 16, y: 16 };
    assert_eq!(overlap(tile, shape, 1, 1), Overlap { x: -2, y: -16 });
    assert_eq!(overlap(tile, shape, -1, -1), Overlap { x: 22, y: 12 });
    assert_eq!(overlap(tile, shape, 0, 0), Overlap { x: 22, y: 12 });
}

#[test]
fn actor_moving_right_stops_at_tile_left_edge() {
    // a wall two tiles tall at column 5 (x 80..96)
    let map = map_with(&[(5, 3), (5, 4)]);
    let mut a = actor(63, 50, 20, 20, 2, 0);
    let r = a.collide(&map, NONE, FIELD);
    assert_eq!(r, Resolution::MovedX(-3));
    assert_eq!(a.shape.pos.x + a.shape.sz.x, 80);
    assert_eq!(a.vx, 0);
    assert_eq!(a.shape.pos.y, 50);
    assert!(a.jumping);
}

#[test]
fn smaller_axis_resolved_first() {
    let ovs = vec![Overlap { x: 3, y: 5 }, Overlap { x: 0, y: 1 }];
    assert_eq!(resolve(&ovs, NONE), Resolution::MovedX(3));
    let ovs = vec![Overlap { x: -7, y: 2 }];
    assert_eq!(resolve(&ovs, NONE), Resolution::MovedY(2));
}

#[test]
fn resolving_x_leaves_y_for_a_later_step() {
    // moving left and down: a tile to the left overlaps by 2 along x,
    // and a tile below is also entered
    let map = map_with(&[(3, 3), (4, 4)]);
    let mut a = actor(62, 48, 20, 20, -1, 1);
    let ovs = collect_overlaps(&map, a.shape, a.vx, a.vy);
    assert_eq!(ovs[0], Overlap { x: 2, y: -20 });
    assert!(ovs.len() > 1);
    let r = a.collide(&map, NONE, FIELD);
    assert_eq!(r, Resolution::MovedX(2));
    assert_eq!(a.shape.pos, Vec2i { x: 64, y: 48 });
    assert_eq!((a.vx, a.vy), (0, 1));
}

#[test]
fn landing_ends_the_jump() {
    let map = map_with(&[(3, 10), (4, 10)]);
    let mut a = actor(50, 143, 14, 20, 0, 3);
    let r = a.collide(&map, NONE, FIELD);
    assert_eq!(r, Resolution::MovedY(-3));
    assert_eq!(a.shape.pos.y + a.shape.sz.y, 160);
    assert_eq!(a.vy, 0);
    assert!(!a.jumping);
}

#[test]
fn touching_without_overlap() {
    assert_eq!(resolve(&vec![Overlap { x: 0, y: 0 }, Overlap { x: 1, y: 1 }], NONE), Resolution::Touching);
}

#[test]
fn no_solid_tile_is_clear() {
    let map = map_with(&[]);
    let mut a = actor(100, 100, 10, 10, 1, 1);
    assert!(collect_overlaps(&map, a.shape, 1, 1).is_empty());
    assert_eq!(a.collide(&map, NONE, FIELD), Resolution::Clear);
    assert_eq!(a.shape.pos, Vec2i { x: 100, y: 100 });
    assert_eq!((a.vx, a.vy), (1, 1));
}

#[test]
fn contradicting_overlaps_are_unresolved() {
    let ovs = vec![Overlap { x: -2, y: 9 }, Overlap { x: 9, y: 3 }];
    assert_eq!(resolve(&ovs, Overlap { x: 4, y: -1 }), Resolution::Unresolved);
    // one that agrees with what was already applied is taken
    assert_eq!(resolve(&ovs, Overlap { x: -1, y: -1 }), Resolution::MovedX(-2));
    assert_eq!(resolve(&vec![], NONE), Resolution::Clear);
}

#[test]
fn squashed_actor_is_reported_and_only_clamped() {
    let map = map_with(&[(2, 2)]);
    let mut a = actor(40, 40, 10, 10, 1, 1);
    let r = a.collide(&map, Overlap { x: 5, y: 5 }, FIELD);
    assert_eq!(r, Resolution::Unresolved);
    assert_eq!(a.shape.pos, Vec2i { x: 40, y: 40 });
    assert_eq!((a.vx, a.vy), (1, 1));
}

#[test]
fn playfield_clamp_keeps_actor_inside() {
    let map = map_with(&[]);
    let mut a = actor(-5, 400, 20, 30, 0, 0);
    assert_eq!(a.collide(&map, NONE, FIELD), Resolution::Clear);
    assert_eq!(a.shape.pos, Vec2i { x: 0, y: 290 });
    let mut b = actor(315, -3, 20, 30, 0, 0);
    b.collide(&map, NONE, FIELD);
    assert_eq!(b.shape.pos, Vec2i { x: 300, y: 0 });
}

/// The lower half of a 320 by 320 map is solid but for a pit one tile wide
/// at column 5; the upper half is open sky.
fn pit_map() -> Tilemap {
    let mut cells = vec![AIR; 400];
    for r in 10..20 {
        for c in 0..20 {
            if c != 5 {
                cells[r * 20 + c] = SOLID;
            }
        }
    }
    Tilemap::new(Vec2i { x: 0, y: 0 }, (20, 20), tileset(), cells)
}

#[test]
fn falling_into_pit_reaches_floor_clamp_while_rim_stops_fall() {
    let map = pit_map();
    let mut in_pit = actor(81, 100, 14, 14, 0, 4);
    for _ in 0..60 {
        in_pit.shape.pos.y += in_pit.vy;
        assert_eq!(in_pit.collide(&map, NONE, FIELD), Resolution::Clear);
    }
    assert_eq!(in_pit.shape.pos.y, 320 - 14);
    assert_eq!(in_pit.vy, 4);

    let mut on_rim = actor(65, 100, 14, 14, 0, 4);
    let mut landed = None;
    for step in 0..60 {
        on_rim.shape.pos.y += on_rim.vy;
        let r = on_rim.collide(&map, NONE, FIELD);
        if r != Resolution::Clear && landed.is_none() {
            landed = Some((step, r));
        }
    }
    assert_eq!(landed, Some((11, Resolution::MovedY(-2))));
    assert_eq!(on_rim.shape.pos.y + on_rim.shape.sz.y, 160);
    assert_eq!(on_rim.vy, 0);
}
