use engine::tiles::{Tile, Tilemap, Tileset, TILE_SZ};
use engine::types::{Image, Rect, Vec2i};
use std::rc::Rc;

fn sheet() -> Rc<Image> {
    // 3 tiles across, 2 down; tile (c, r) is filled with (c, r, 0, 255)
    let mut img = Image::new(Vec2i { x: 48, y: 32 });
    for y in 0..32 {
        for x in 0..48 {
            img.buffer[y * 48 + x] = ((x / 16) as u8, (y / 16) as u8, 0, 255);
        }
    }
    Rc::new(img)
}

fn set() -> Rc<Tileset> {
    Rc::new(Tileset::new(
        vec![Tile { solid: true }, Tile { solid: false }, Tile { solid: true }, Tile { solid: false }],
        sheet(),
    ))
}

#[test]
fn tileset_rect_of_id() {
    let ts = set();
    assert!(ts.contains(3));
    assert!(!ts.contains(4));
    assert_eq!(ts.get_rect(0), Rect { pos: Vec2i { x: 0, y: 0 }, sz: Vec2i { x: 16, y: 16 } });
    assert_eq!(ts.get_rect(2), Rect { pos: Vec2i { x: 32, y: 0 }, sz: Vec2i { x: 16, y: 16 } });
    assert_eq!(ts.get_rect(3), Rect { pos: Vec2i { x: 0, y: 16 }, sz: Vec2i { x: 16, y: 16 } });
}

#[test]
fn tile_at_floor_divides_and_clamps() {
    let map = Tilemap::new(Vec2i { x: 8, y: -8 }, (3, 2), set(), vec![0, 1, 2, 3, 0, 1]);
    assert_eq!(map.size(), (3, 2));
    assert_eq!(map.tile_at(Vec2i { x: 8, y: -8 }), (Vec2i { x: 8, y: -8 }, Tile { solid: true }));
    assert_eq!(map.tile_at(Vec2i { x: 24, y: 7 }), (Vec2i { x: 24, y: -8 }, Tile { solid: false }));
    assert_eq!(map.tile_at(Vec2i { x: 40, y: 8 }), (Vec2i { x: 40, y: 8 }, Tile { solid: false }));
    assert_eq!(map.tile_at(Vec2i { x: 23, y: 8 }), (Vec2i { x: 8, y: 8 }, Tile { solid: false }));
    // outside the grid: the nearest cell
    assert_eq!(map.tile_at(Vec2i { x: -100, y: -100 }), (Vec2i { x: 8, y: -8 }, Tile { solid: true }));
    assert_eq!(map.tile_at(Vec2i { x: 1000, y: 1000 }), (Vec2i { x: 40, y: 8 }, Tile { solid: false }));
    assert_eq!(map.tile_at(Vec2i { x: 7, y: 100 }), (Vec2i { x: 8, y: 8 }, Tile { solid: false }));
    assert_eq!(TILE_SZ, 16);
}

#[test]
fn tilemap_draw_blits_every_cell() {
    let map = Tilemap::new(Vec2i { x: 0, y: 0 }, (2, 2), set(), vec![3, 2, 1, 0]);
    let mut fb = Image::new(Vec2i { x: 40, y: 40 });
    map.draw(&mut fb);
    let at = |x: usize, y: usize| fb.buffer[y * 40 + x];
    assert_eq!(at(0, 0), (0, 1, 0, 255));
    assert_eq!(at(31, 0), (2, 0, 0, 255));
    assert_eq!(at(5, 20), (1, 0, 0, 255));
    assert_eq!(at(20, 31), (0, 0, 0, 255));
    assert_eq!(at(35, 35), (0, 0, 0, 255));
    assert_eq!(at(39, 0), (0, 0, 0, 255));
}
