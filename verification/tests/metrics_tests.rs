use poetry_wall::bounding_box::BoundingBox;
use poetry_wall::dimension::Dimension;
use poetry_wall::metrics::{FitOutcome, Metrics};

fn simple_box(height: i32, width: i32) -> BoundingBox {
    BoundingBox { top: 0, left: 0, bottom: height, right: width }
}

#[test]
fn metrics_new_keeps_every_field() {
    let m = Metrics::new(72000, 50000, -10000, 2000, 7, 3);
    assert_eq!(m.font_size, 72000);
    assert_eq!(m.ascent, 50000);
    assert_eq!(m.descent, -10000);
    assert_eq!(m.line_gap, 2000);
    assert_eq!(m.top_offset, 7);
    assert_eq!(m.left_offset, 3);
}

#[test]
fn rescale_keeps_offsets_and_replaces_the_rest() {
    let mut m = Metrics::new(72000, 50000, -10000, 2000, 7, 3);
    m.rescale_to(64800, 45000, -9000, 1800);
    assert_eq!(m.font_size, 64800);
    assert_eq!(m.ascent, 45000);
    assert_eq!(m.descent, -9000);
    assert_eq!(m.line_gap, 1800);
    assert_eq!(m.top_offset, 7);
    assert_eq!(m.left_offset, 3);
}

#[test]
fn shrinking_takes_a_tenth_off_truncating() {
    let m = Metrics::new(72000, 0, 0, 0, 0, 0);
    assert_eq!(m.shrunk_font_size(), 64800);
    let m = Metrics::new(47239, 0, 0, 0, 0, 0);
    assert_eq!(m.shrunk_font_size(), 42515);
    let m = Metrics::new(1, 0, 0, 0, 0, 0);
    assert_eq!(m.shrunk_font_size(), 0);
}

#[test]
fn fit_step_accepts_a_box_under_the_target_height() {
    let m = Metrics::new(72000, 50000, -10000, 2000, 0, 0);
    assert_eq!(m.fit_step(&simple_box(99, 50), 100), FitOutcome::Fits);
}

#[test]
fn fit_step_shrinks_strictly_when_the_box_is_too_tall() {
    let m = Metrics::new(72000, 50000, -10000, 2000, 0, 0);
    match m.fit_step(&simple_box(100, 50), 100) {
        FitOutcome::Shrink(next) => {
            assert_eq!(next, 64800);
            assert!(next < m.font_size);
        },
        other => panic!("expected Shrink, got {:?}", other),
    }
}

#[test]
fn fit_step_gives_up_when_the_size_cannot_shrink() {
    let m = Metrics::new(1, 0, 0, 0, 0, 0);
    assert_eq!(m.fit_step(&simple_box(100, 50), 100), FitOutcome::Unfittable);
    let m = Metrics::new(0, 0, 0, 0, 0, 0);
    assert_eq!(m.fit_step(&simple_box(100, 50), 100), FitOutcome::Unfittable);
}

#[test]
fn offsets_follow_the_33_and_25_hundredths_heuristic() {
    let mut m = Metrics::new(72000, 50000, -10000, 2000, 0, 0);
    let dims = Dimension::new(100, 100);
    m.set_offsets(&simple_box(60, 40), &dims, None, None);
    assert_eq!(m.top_offset, 33 * (100 - 60) / 100);
    assert_eq!(m.left_offset, 25 * (100 - 40) / 100);
    assert_eq!(m.top_offset, 13);
    assert_eq!(m.left_offset, 15);
}

#[test]
fn explicit_overrides_win_over_the_heuristic() {
    let mut m = Metrics::new(72000, 50000, -10000, 2000, 0, 0);
    let dims = Dimension::new(100, 100);
    m.set_offsets(&simple_box(60, 40), &dims, Some(100), Some(2));
    assert_eq!(m.top_offset, 100);
    assert_eq!(m.left_offset, 2);
}

#[test]
fn origins_keep_line_count_and_spacing() {
    let m = Metrics::new(72000, 50000, -10000, 2000, 7, 3);
    let origins = m.line_origins(4);
    assert_eq!(origins.len(), 4);
    let line_height = 50000 + 10000 + 2000;
    for origin in &origins {
        assert_eq!(origin.x, 3 * 1000);
    }
    assert_eq!(origins[0].y, 7 * 1000 + 50000);
    for i in 1..origins.len() {
        assert_eq!(origins[i].y - origins[i - 1].y, line_height);
    }
}

#[test]
fn origins_advance_past_empty_lines_too() {
    let m = Metrics::new(72000, 50000, -10000, 2000, 0, 0);
    let origins = m.line_origins(3);
    assert_eq!(origins.len(), 3);
    assert_eq!(origins[2].y - origins[0].y, 2 * (50000 + 10000 + 2000));
}

/// The bounding-box height a synthetic single-line layout would
/// measure at a given size: proportional to the size, deterministic.
fn synthetic_height(font_size: u32) -> i32 {
    (font_size / 500) as i32
}

#[test]
fn a_line_that_already_fits_shrinks_zero_times() {
    // One line at 72pt on a 100x100 canvas; the synthetic line
    // measures 72 pixels, already under the 100-pixel target.
    let mut m = Metrics::new(72000, 50000, -10000, 2000, 0, 0);
    let measured = simple_box((m.font_size / 1000) as i32, 40);
    let mut shrinks = 0;
    let accepted = loop {
        match m.fit_step(&measured, 100) {
            FitOutcome::Fits => break measured,
            FitOutcome::Shrink(next) => {
                shrinks += 1;
                m.rescale_to(next, m.ascent, m.descent, m.line_gap);
            },
            FitOutcome::Unfittable => panic!("must fit"),
        }
    };
    assert_eq!(shrinks, 0);
    assert_eq!(m.font_size, 72000);
    let dims = Dimension::new(100, 100);
    m.set_offsets(&accepted, &dims, None, None);
    assert_eq!(m.top_offset, 33 * (100 - 72) / 100);
    assert_eq!(m.left_offset, 25 * (100 - 40) / 100);
}

#[test]
fn an_overflowing_block_shrinks_to_the_first_fitting_size() {
    // The synthetic block measures size/500 pixels: 144 at 72pt, so it
    // overflows a 100-pixel canvas until the fourth shrink.
    let mut m = Metrics::new(72000, 50000, -10000, 2000, 0, 0);
    let mut sizes = vec![m.font_size];
    loop {
        let measured = simple_box(synthetic_height(m.font_size), 40);
        match m.fit_step(&measured, 100) {
            FitOutcome::Fits => break,
            FitOutcome::Shrink(next) => {
                m.rescale_to(next, m.ascent, m.descent, m.line_gap);
                sizes.push(next);
            },
            FitOutcome::Unfittable => panic!("must fit eventually"),
        }
    }
    // 72000 -> 64800 -> 58320 -> 52488 -> 47239; only the last is
    // under 50000, the smallest size whose synthetic height is < 100.
    assert_eq!(sizes, vec![72000, 64800, 58320, 52488, 47239]);
    assert_eq!(m.font_size, 47239);
    assert!(synthetic_height(m.font_size) < 100);
    assert!(synthetic_height(52488) >= 100);
    // Each iteration's size is strictly below the previous one.
    for i in 1..sizes.len() {
        assert!(sizes[i] < sizes[i - 1]);
    }
}

#[test]
fn a_zero_target_height_is_reported_unfittable() {
    let mut m = Metrics::new(72000, 50000, -10000, 2000, 0, 0);
    let mut steps = 0u32;
    loop {
        let measured = simple_box(synthetic_height(m.font_size), 40);
        match m.fit_step(&measured, 0) {
            FitOutcome::Fits => panic!("nothing fits a zero-height canvas"),
            FitOutcome::Shrink(next) => {
                m.rescale_to(next, m.ascent, m.descent, m.line_gap);
                steps += 1;
                assert!(steps < 1000, "the loop must reach Unfittable");
            },
            FitOutcome::Unfittable => break,
        }
    }
}
