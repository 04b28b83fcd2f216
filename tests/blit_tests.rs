use engine::blit::over_pixel;
use engine::types::{Color, Image, Rect, Vec2i};

fn filled(w: i32, h: i32, c: Color) -> Image {
    let mut img = Image::new(Vec2i { x: w, y: h });
    img.clear(c);
    img
}

fn rect(x: i32, y: i32, w: i32, h: i32) -> Rect {
    Rect { pos: Vec2i { x, y }, sz: Vec2i { x: w, y: h } }
}

fn px(img: &Image, x: i32, y: i32) -> Color {
    img.buffer[(y * img.sz.x + x) as usize]
}

/// A 16 by 16 opaque image whose every pixel differs.
fn opaque_pattern(seed: u8) -> Image {
    let mut img = Image::new(Vec2i { x: 16, y: 16 });
    for y in 0..16 {
        for x in 0..16 {
            img.buffer[y * 16 + x] = (seed.wrapping_add(x as u8), (y * 16) as u8, seed, 255);
        }
    }
    img
}

#[test]
fn new_image_is_opaque_black() {
    let img = Image::new(Vec2i { x: 3, y: 2 });
    assert_eq!(img.buffer.len(), 6);
    assert!(img.as_slice().iter().all(|&p| p == (0, 0, 0, 255)));
}

#[test]
fn image_hline_fills_half_open_span() {
    let mut img = filled(5, 3, (0, 0, 0, 0));
    img.hline(1, 4, 2, (9, 9, 9, 9));
    for y in 0..3 {
        for x in 0..5 {
            let want = if y == 2 && (1..4).contains(&x) { (9, 9, 9, 9) } else { (0, 0, 0, 0) };
            assert_eq!(px(&img, x, y), want);
        }
    }
}

#[test]
fn over_formula_exact_values() {
    assert_eq!(over_pixel((100, 0, 0, 128), (200, 200, 200, 255)), (200, 100, 100, 255));
    assert_eq!(over_pixel((0, 0, 0, 0), (10, 20, 30, 40)), (10, 20, 30, 40));
    assert_eq!(over_pixel((10, 20, 30, 255), (200, 200, 200, 200)), (10, 20, 30, 255));
    // saturates instead of wrapping
    assert_eq!(over_pixel((200, 0, 0, 0), (100, 0, 0, 0)), (255, 0, 0, 0));
}

#[test]
fn opaque_blit_replaces_destination_exactly() {
    let src = opaque_pattern(7);
    let mut dst = filled(20, 20, (1, 2, 3, 4));
    dst.bitblt(&src, rect(0, 0, 16, 16), Vec2i { x: 2, y: 3 }, false);
    for y in 0..20 {
        for x in 0..20 {
            let inside = (2..18).contains(&x) && (3..19).contains(&y);
            let want = if inside { px(&src, x - 2, y - 3) } else { (1, 2, 3, 4) };
            assert_eq!(px(&dst, x, y), want);
        }
    }
    let once = dst.clone();
    dst.bitblt(&src, rect(0, 0, 16, 16), Vec2i { x: 2, y: 3 }, false);
    assert_eq!(dst, once);
}

#[test]
fn blit_outside_destination_is_a_no_op() {
    let src = opaque_pattern(1);
    let base = opaque_pattern(99);
    for to in [
        Vec2i { x: -16, y: 0 },
        Vec2i { x: 16, y: 0 },
        Vec2i { x: 0, y: -16 },
        Vec2i { x: 0, y: 16 },
        Vec2i { x: -100, y: 200 },
        Vec2i { x: i32::MAX, y: i32::MIN },
    ] {
        let mut dst = base.clone();
        dst.bitblt(&src, rect(0, 0, 16, 16), to, false);
        assert_eq!(dst.buffer, base.buffer);
        dst.bitblt(&src, rect(0, 0, 16, 16), to, true);
        assert_eq!(dst.buffer, base.buffer);
    }
}

#[test]
fn blit_clips_at_the_edges() {
    let src = opaque_pattern(5);
    let mut dst = filled(8, 8, (0, 0, 0, 0));
    dst.bitblt(&src, rect(0, 0, 16, 16), Vec2i { x: -3, y: -5 }, false);
    for y in 0..8 {
        for x in 0..8 {
            assert_eq!(px(&dst, x, y), px(&src, x + 3, y + 5));
        }
    }
}

#[test]
fn blit_flip_reverses_column_order() {
    let mut src = Image::new(Vec2i { x: 2, y: 1 });
    src.buffer[0] = (10, 0, 0, 255);
    src.buffer[1] = (0, 20, 0, 255);
    let mut plain = filled(2, 1, (0, 0, 0, 255));
    plain.bitblt(&src, rect(0, 0, 2, 1), Vec2i { x: 0, y: 0 }, false);
    let mut flipped = filled(2, 1, (0, 0, 0, 255));
    flipped.bitblt(&src, rect(0, 0, 2, 1), Vec2i { x: 0, y: 0 }, true);
    assert_eq!(plain.buffer, vec![(10, 0, 0, 255), (0, 20, 0, 255)]);
    assert_eq!(flipped.buffer, vec![(0, 20, 0, 255), (10, 0, 0, 255)]);
}

#[test]
fn blit_from_sub_rectangle_with_flip() {
    let src = opaque_pattern(3);
    let mut dst = filled(4, 2, (0, 0, 0, 0));
    dst.bitblt(&src, rect(5, 6, 4, 2), Vec2i { x: 0, y: 0 }, true);
    for y in 0..2 {
        for x in 0..4 {
            assert_eq!(px(&dst, x, y), px(&src, 5 + 3 - x, 6 + y));
        }
    }
}

#[test]
fn later_opaque_blit_wins() {
    let first = opaque_pattern(11);
    let second = opaque_pattern(200);
    let mut dst = filled(32, 32, (5, 5, 5, 255));
    let to = Vec2i { x: 8, y: 4 };
    dst.bitblt(&first, rect(0, 0, 16, 16), to, false);
    dst.bitblt(&second, rect(0, 0, 16, 16), to, false);
    let mut only = filled(32, 32, (5, 5, 5, 255));
    only.bitblt(&second, rect(0, 0, 16, 16), to, false);
    assert_eq!(dst.buffer, only.buffer);
    for y in 0..16 {
        for x in 0..16 {
            assert_eq!(px(&dst, x + 8, y + 4), px(&second, x, y));
        }
    }
}

#[test]
fn translucent_blit_composites_over() {
    let src = filled(1, 1, (64, 0, 0, 128));
    let mut dst = filled(1, 1, (0, 0, 255, 255));
    dst.bitblt(&src, rect(0, 0, 1, 1), Vec2i { x: 0, y: 0 }, false);
    assert_eq!(dst.buffer[0], (64, 0, 127, 255));
}

#[test]
fn rect_contains_and_contains_point() {
    let r = rect(0, 0, 10, 10);
    assert!(r.contains(rect(2, 2, 8, 8)));
    assert!(!r.contains(rect(2, 2, 9, 8)));
    assert!(!r.contains(rect(-1, 0, 1, 1)));
    assert!(r.contains_point(Vec2i { x: 0, y: 9 }));
    assert!(!r.contains_point(Vec2i { x: 10, y: 0 }));
    assert_eq!(Vec2i { x: 1, y: 2 }.add(Vec2i { x: 3, y: -5 }), Vec2i { x: 4, y: -3 });
}

#[test]
fn from_rgba_premultiplies_alpha() {
    let data = vec![255, 128, 0, 128, 10, 20, 30, 255];
    let img = Image::from_rgba(2, 1, &data).unwrap();
    assert_eq!(img.sz, Vec2i { x: 2, y: 1 });
    assert_eq!(img.buffer, vec![(128, 64, 0, 128), (10, 20, 30, 255)]);
    assert!(Image::from_rgba(2, 2, &data).is_none());
    assert!(Image::from_rgba(1, 1, &vec![1, 2, 3]).is_none());
}

#[test]
fn from_png_decodes_and_premultiplies() {
    let mut bytes: Vec<u8> = Vec::new();
    {
        let mut enc = png::Encoder::new(&mut bytes, 2, 1);
        enc.set_color(png::ColorType::Rgba);
        enc.set_depth(png::BitDepth::Eight);
        let mut w = enc.write_header().unwrap();
        w.write_image_data(&[255, 255, 255, 0, 200, 100, 50, 51]).unwrap();
    }
    let img = Image::from_png(&bytes).unwrap();
    assert_eq!(img.sz, Vec2i { x: 2, y: 1 });
    assert_eq!(img.buffer, vec![(0, 0, 0, 0), (40, 20, 10, 51)]);
    assert!(Image::from_png(&[1, 2, 3, 4]).is_none());
}

#[test]
fn from_png_refuses_rgb_files() {
    let mut bytes: Vec<u8> = Vec::new();
    {
        let mut enc = png::Encoder::new(&mut bytes, 1, 1);
        enc.set_color(png::ColorType::Rgb);
        enc.set_depth(png::BitDepth::Eight);
        let mut w = enc.write_header().unwrap();
        w.write_image_data(&[1, 2, 3]).unwrap();
    }
    assert!(Image::from_png(&bytes).is_none());
}
