use vstd::prelude::*;
use crate::bounding_box::BoundingBox;
use crate::dimension::Dimension;

verus! {

/// Bound on the vertical metrics a font may report, in thousandths of a
/// pixel: a million pixels of ascent is far beyond any real canvas, and
/// the bound keeps every cursor computation inside `i64`.
pub const METRIC_LIMIT: i32 = 1_000_000_000;

/// Bound on the number of lines one render lays out; with it, the
/// vertical cursor stays inside `i64` at every line.
pub const MAX_LINES: usize = 1_000_000;

/// The origin handed to the font capability for one line, in
/// thousandths of a pixel: `x` is the left edge, `y` the baseline.
#[derive(Clone, Copy, Debug, PartialEq, Eq, Structural)]
pub struct LineOrigin {
    pub x: i64,
    pub y: i64,
}

/// What one decision of the auto-fit loop says to do next.
#[derive(Clone, Copy, Debug, PartialEq, Eq, Structural)]
pub enum FitOutcome {
    /// The measured box fits the target height; the current size stands.
    Fits,
    /// The box is too tall: lay out again at this strictly smaller size.
    Shrink(u32),
    /// The size cannot shrink any further; the text cannot be made to
    /// fit and the render must fail rather than loop.
    Unfittable,
}

/// The font scale and derived layout state of one render: the current
/// point size, the vertical metrics the font reports at that size, and
/// the offsets that position the whole text block. Rebuilt with fresh
/// vertical metrics on every rescale, so the two can never go stale
/// against each other.
#[derive(Clone, Copy, Debug, PartialEq, Eq, Structural)]
pub struct Metrics {
    /// Point size in thousandths of a point.
    pub font_size: u32,
    /// How far the font reaches above the baseline, in thousandths of a
    /// pixel.
    pub ascent: i32,
    /// How far it reaches below the baseline; negative means downward,
    /// as fonts report it.
    pub descent: i32,
    /// Extra space between lines, in thousandths of a pixel.
    pub line_gap: i32,
    /// Top margin of the text block, in whole pixels.
    pub top_offset: u32,
    /// Left margin of the text block, in whole pixels.
    pub left_offset: u32,
}

/// The next candidate size: nine tenths of the current one, truncated.
pub open spec fn spec_shrunk(size: u32) -> int {
    size * 9 / 10
}

/// Shrinking strictly decreases every positive size, which is what
/// makes the fitting loop terminate: the size can only step down until
/// it either fits or reaches zero.
pub proof fn lemma_shrink_strictly_decreases(size: u32)
    requires
        size > 0,
    ensures
        0 <= spec_shrunk(size) < size,
{
    assert(0 <= size * 9 / 10 < size) by (nonlinear_arith)
        requires size > 0;
}

impl Metrics {
    /// The vertical metrics stay within `METRIC_LIMIT`, so cursor
    /// arithmetic over them cannot overflow.
    pub open spec fn wf(self) -> bool {
        &&& -METRIC_LIMIT <= self.ascent <= METRIC_LIMIT
        &&& -METRIC_LIMIT <= self.descent <= METRIC_LIMIT
        &&& -METRIC_LIMIT <= self.line_gap <= METRIC_LIMIT
    }

    /// The vertical step from one line's baseline to the next:
    /// `ascent + |descent| + line_gap`.
    pub open spec fn spec_line_height(self) -> int {
        self.ascent + (if self.descent < 0 { -(self.descent as int) } else { self.descent as int })
            + self.line_gap
    }

    /// Fresh layout state at the given size, with the vertical metrics
    /// the font reports for that size.
    pub fn new(
        font_size: u32,
        ascent: i32,
        descent: i32,
        line_gap: i32,
        top_offset: u32,
        left_offset: u32,
    ) -> (m: Metrics)
        requires
            -METRIC_LIMIT <= ascent <= METRIC_LIMIT,
            -METRIC_LIMIT <= descent <= METRIC_LIMIT,
            -METRIC_LIMIT <= line_gap <= METRIC_LIMIT,
        ensures
            m == (Metrics { font_size, ascent, descent, line_gap, top_offset, left_offset }),
            m.wf(),
    {
        Metrics { font_size, ascent, descent, line_gap, top_offset, left_offset }
    }

    /// Change to a new point size together with the vertical metrics
    /// the font reports at that size; offsets are kept. Size and
    /// metrics only ever change together, never one without the other.
    pub fn rescale_to(&mut self, font_size: u32, ascent: i32, descent: i32, line_gap: i32)
        requires
            -METRIC_LIMIT <= ascent <= METRIC_LIMIT,
            -METRIC_LIMIT <= descent <= METRIC_LIMIT,
            -METRIC_LIMIT <= line_gap <= METRIC_LIMIT,
        ensures
            *final(self) == (Metrics {
                font_size,
                ascent,
                descent,
                line_gap,
                top_offset: old(self).top_offset,
                left_offset: old(self).left_offset,
            }),
            final(self).wf(),
    {
        self.font_size = font_size;
        self.ascent = ascent;
        self.descent = descent;
        self.line_gap = line_gap;
    }

    /// The line step as a machine integer.
    pub fn line_height(&self) -> (r: i64)
        requires
            self.wf(),
        ensures
            r == self.spec_line_height(),
    {
        let d = self.descent as i64;
        let magnitude = if d < 0 { -d } else { d };
        self.ascent as i64 + magnitude + self.line_gap as i64
    }

    /// Nine tenths of the current size, truncated.
    pub fn shrunk_font_size(&self) -> (r: u32)
        ensures
            r == spec_shrunk(self.font_size),
    {
        proof {
            assert(0 <= self.font_size * 9 / 10 <= self.font_size) by (nonlinear_arith);
        }
        ((self.font_size as u64) * 9 / 10) as u32
    }

    /// One decision of the auto-fit loop. Accept as soon as the
    /// measured box's height is under the target; otherwise shrink the
    /// size by a tenth, and give up only when even that reaches zero.
    /// Every `Shrink` step is strictly smaller than the current size.
    pub fn fit_step(&self, bb: &BoundingBox, target_height: u32) -> (r: FitOutcome)
        ensures
            bb.spec_height() < target_height ==> r == FitOutcome::Fits,
            bb.spec_height() >= target_height && spec_shrunk(self.font_size) > 0 ==> {
                &&& r matches FitOutcome::Shrink(next)
                &&& next == spec_shrunk(self.font_size)
                &&& next < self.font_size
            },
            bb.spec_height() >= target_height && spec_shrunk(self.font_size) == 0 ==> r
                == FitOutcome::Unfittable,
    {
        let rendered_height = bb.bottom as i64 - bb.top as i64;
        if rendered_height < target_height as i64 {
            FitOutcome::Fits
        } else {
            let next = self.shrunk_font_size();
            if next > 0 {
                proof {
                    lemma_shrink_strictly_decreases(self.font_size);
                }
                FitOutcome::Shrink(next)
            } else {
                FitOutcome::Unfittable
            }
        }
    }

    /// Position the accepted text block. An explicit override wins;
    /// otherwise the block gets 33/100 of the spare height above it and
    /// 25/100 of the spare width to its left — the fixed, asymmetric
    /// centering heuristic, reproduced in hundredths.
    pub fn set_offsets(
        &mut self,
        bb: &BoundingBox,
        dimensions: &Dimension,
        top: Option<u32>,
        left: Option<u32>,
    )
        requires
            top is None ==> 0 <= bb.spec_height() < dimensions.height,
            left is None ==> 0 <= bb.spec_width() <= dimensions.width,
        ensures
            top is Some ==> final(self).top_offset == top->0,
            top is None ==> final(self).top_offset == 33 * (dimensions.height - bb.spec_height())
                / 100,
            left is Some ==> final(self).left_offset == left->0,
            left is None ==> final(self).left_offset == 25 * (dimensions.width - bb.spec_width())
                / 100,
            final(self).font_size == old(self).font_size,
            final(self).ascent == old(self).ascent,
            final(self).descent == old(self).descent,
            final(self).line_gap == old(self).line_gap,
    {
        match top {
            Some(t) => {
                self.top_offset = t;
            },
            None => {
                let rendered_height = (bb.bottom as i64 - bb.top as i64) as u64;
                let spare = dimensions.height as u64 - rendered_height;
                proof {
                    assert(33 * spare / 100 <= spare) by (nonlinear_arith);
                }
                self.top_offset = (33 * spare / 100) as u32;
            },
        }
        match left {
            Some(l) => {
                self.left_offset = l;
            },
            None => {
                let rendered_width = (bb.right as i64 - bb.left as i64) as u64;
                let spare = dimensions.width as u64 - rendered_width;
                proof {
                    assert(25 * spare / 100 <= spare) by (nonlinear_arith);
                }
                self.left_offset = (25 * spare / 100) as u32;
            },
        }
    }

    /// The per-line origins of a text block of `n_lines` lines: every
    /// line starts at the left offset, the first baseline sits one
    /// ascent below the top offset, and each further baseline is one
    /// line height lower — whether or not the line has any visible ink.
    /// There is one origin per input line, so the block keeps its line
    /// count and order.
    pub fn line_origins(&self, n_lines: usize) -> (r: Vec<LineOrigin>)
        requires
            self.wf(),
            n_lines <= MAX_LINES,
        ensures
            r@.len() == n_lines,
            forall|i: int| 0 <= i < n_lines ==> (#[trigger] r@[i]).x == self.left_offset * 1000,
            forall|i: int| 0 <= i < n_lines ==> (#[trigger] r@[i]).y == self.top_offset * 1000
                + self.ascent + i * self.spec_line_height(),
            forall|i: int| 1 <= i < n_lines ==> #[trigger] (r@[i].y - r@[i - 1].y)
                == self.spec_line_height(),
    {
        let mut r: Vec<LineOrigin> = Vec::new();
        let left_x = self.left_offset as i64 * 1000;
        let line_height = self.line_height();
        let mut cursor_y = self.top_offset as i64 * 1000 + self.ascent as i64;
        let mut i: usize = 0;
        while i < n_lines
            invariant
                i <= n_lines <= MAX_LINES,
                self.wf(),
                line_height == self.spec_line_height(),
                left_x == self.left_offset * 1000,
                cursor_y == self.top_offset * 1000 + self.ascent + i * self.spec_line_height(),
                r@.len() == i,
                forall|j: int| 0 <= j < i ==> (#[trigger] r@[j]).x == self.left_offset * 1000,
                forall|j: int| 0 <= j < i ==> (#[trigger] r@[j]).y == self.top_offset * 1000
                    + self.ascent + j * self.spec_line_height(),
            decreases n_lines - i,
        {
            r.push(LineOrigin { x: left_x, y: cursor_y });
            proof {
                assert((i + 1) * self.spec_line_height() == i * self.spec_line_height()
                    + self.spec_line_height()) by (nonlinear_arith);
                assert(-4_000_000_000_000_000 <= (i + 1) * self.spec_line_height()
                    <= 4_000_000_000_000_000) by (nonlinear_arith)
                    requires
                        0 <= i + 1 <= 1_000_001,
                        -3_000_000_000 <= self.spec_line_height() <= 3_000_000_000,
                ;
            }
            cursor_y = cursor_y + line_height;
            i = i + 1;
        }
        proof {
            assert forall|j: int| 1 <= j < n_lines implies #[trigger] (r@[j].y - r@[j - 1].y)
                == self.spec_line_height() by {
                assert(r@[j].y == self.top_offset * 1000 + self.ascent + j
                    * self.spec_line_height());
                assert(r@[j - 1].y == self.top_offset * 1000 + self.ascent + (j - 1)
                    * self.spec_line_height());
                assert(j * self.spec_line_height() - (j - 1) * self.spec_line_height()
                    == self.spec_line_height()) by (nonlinear_arith);
            }
        }
        r
    }
}

} // verus!
