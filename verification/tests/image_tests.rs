use poetry_wall::color::Color;
use poetry_wall::font::{CoveredPixel, PixelBox, PositionedGlyph};
use poetry_wall::image_utils::{create_image, render_glyphs};

fn glyph_at(min_x: i32, min_y: i32, samples: &[(u32, u32, u8)]) -> PositionedGlyph {
    PositionedGlyph {
        pixel_box: Some(PixelBox { min_x, min_y, max_x: min_x + 8, max_y: min_y + 8 }),
        pixels: samples
            .iter()
            .map(|&(x, y, coverage)| CoveredPixel { x, y, coverage })
            .collect(),
    }
}

#[test]
fn a_new_canvas_is_filled_with_the_background() {
    let img = create_image(3, 2, 10, 20, 30);
    assert_eq!(img.width(), 3);
    assert_eq!(img.height(), 2);
    for y in 0..2 {
        for x in 0..3 {
            assert_eq!(img.get_pixel(x, y), Color::new(10, 20, 30));
        }
    }
}

#[test]
fn put_pixel_changes_one_pixel_only() {
    let mut img = create_image(3, 3, 0, 0, 0);
    img.put_pixel(1, 2, Color::new(9, 9, 9));
    for y in 0..3 {
        for x in 0..3 {
            let expected = if (x, y) == (1, 2) {
                Color::new(9, 9, 9)
            } else {
                Color::new(0, 0, 0)
            };
            assert_eq!(img.get_pixel(x, y), expected);
        }
    }
}

#[test]
fn rgba_bytes_are_row_major_and_opaque() {
    let mut img = create_image(2, 1, 1, 2, 3);
    img.put_pixel(1, 0, Color::new(4, 5, 6));
    assert_eq!(img.to_rgba_bytes(), vec![1, 2, 3, 255, 4, 5, 6, 255]);
}

#[test]
fn rendering_composites_each_covered_pixel() {
    let white = Color::new(255, 255, 255);
    let black = Color::new(0, 0, 0);
    let mut img = create_image(4, 4, 0, 0, 0);
    let glyphs = vec![glyph_at(1, 1, &[(0, 0, 255), (1, 0, 127)])];
    render_glyphs(&mut img, &glyphs, &white, &black);
    assert_eq!(img.get_pixel(1, 1), Color::new(255, 255, 255));
    assert_eq!(img.get_pixel(2, 1), Color::new(127, 127, 127));
    assert_eq!(img.get_pixel(0, 0), Color::new(0, 0, 0));
    assert_eq!(img.get_pixel(3, 3), Color::new(0, 0, 0));
}

#[test]
fn half_coverage_of_white_over_black_truncates_to_127() {
    let white = Color::new(255, 255, 255);
    let black = Color::new(0, 0, 0);
    let mut img = create_image(1, 1, 0, 0, 0);
    let half = (0.5f32 * 255.0) as u8;
    let glyphs = vec![glyph_at(0, 0, &[(0, 0, half)])];
    render_glyphs(&mut img, &glyphs, &white, &black);
    assert_eq!(img.get_pixel(0, 0), Color::new(127, 127, 127));
    assert_ne!(img.get_pixel(0, 0), Color::new(128, 128, 128));
}

#[test]
fn samples_outside_the_canvas_are_clipped() {
    let white = Color::new(255, 255, 255);
    let black = Color::new(0, 0, 0);
    let mut img = create_image(2, 2, 0, 0, 0);
    // The glyph's box corner is off-canvas: its (0, 0) sample lands
    // outside and is dropped; its (1, 1) sample lands on (0, 0).
    let glyphs = vec![glyph_at(-1, -1, &[(0, 0, 255), (1, 1, 255)])];
    render_glyphs(&mut img, &glyphs, &white, &black);
    assert_eq!(img.get_pixel(0, 0), Color::new(255, 255, 255));
    assert_eq!(img.get_pixel(1, 0), Color::new(0, 0, 0));
    assert_eq!(img.get_pixel(0, 1), Color::new(0, 0, 0));
    assert_eq!(img.get_pixel(1, 1), Color::new(0, 0, 0));
}

#[test]
fn later_glyphs_paint_over_earlier_ones() {
    let white = Color::new(255, 255, 255);
    let black = Color::new(0, 0, 0);
    let mut img = create_image(2, 2, 0, 0, 0);
    let glyphs = vec![
        glyph_at(0, 0, &[(0, 0, 255)]),
        glyph_at(0, 0, &[(0, 0, 100)]),
    ];
    render_glyphs(&mut img, &glyphs, &white, &black);
    // The second glyph's coverage wins: 255 * 100 / 255 == 100.
    assert_eq!(img.get_pixel(0, 0), Color::new(100, 100, 100));
}

#[test]
fn glyphs_without_ink_paint_nothing() {
    let white = Color::new(255, 255, 255);
    let black = Color::new(0, 0, 0);
    let mut img = create_image(2, 2, 0, 0, 0);
    let glyphs = vec![PositionedGlyph { pixel_box: None, pixels: Vec::new() }];
    render_glyphs(&mut img, &glyphs, &white, &black);
    for y in 0..2 {
        for x in 0..2 {
            assert_eq!(img.get_pixel(x, y), Color::new(0, 0, 0));
        }
    }
}
