use vstd::prelude::*;
use crate::font::{GlyphVec, PositionedGlyph};

verus! {

/// The tightest integer box enclosing a glyph set, seeded at
/// (0, 0, 0, 0) and only ever expanded: `top` and `left` take minima,
/// `bottom` and `right` maxima. A set whose glyphs never extend left or
/// up therefore keeps 0 on those edges, and an empty or all-whitespace
/// set stays at (0, 0, 0, 0).
#[derive(Clone, Copy, Debug, PartialEq, Eq, Structural)]
pub struct BoundingBox {
    pub top: i32,
    pub left: i32,
    pub bottom: i32,
    pub right: i32,
}

/// `bb` widened just enough to also enclose `g`'s ink; a glyph without
/// ink changes nothing.
pub open spec fn expanded(bb: BoundingBox, g: PositionedGlyph) -> BoundingBox {
    match g.pixel_box {
        Some(pb) => BoundingBox {
            top: if pb.min_y < bb.top { pb.min_y } else { bb.top },
            left: if pb.min_x < bb.left { pb.min_x } else { bb.left },
            bottom: if pb.max_y > bb.bottom { pb.max_y } else { bb.bottom },
            right: if pb.max_x > bb.right { pb.max_x } else { bb.right },
        },
        None => bb,
    }
}

/// The box that folding the glyphs into (0, 0, 0, 0) yields, in order.
pub open spec fn box_of(glyphs: Seq<PositionedGlyph>) -> BoundingBox
    decreases glyphs.len(),
{
    if glyphs.len() == 0 {
        BoundingBox { top: 0, left: 0, bottom: 0, right: 0 }
    } else {
        expanded(box_of(glyphs.drop_last()), glyphs.last())
    }
}

impl BoundingBox {
    /// The box's vertical extent, the quantity the fitting loop holds
    /// against the target height.
    pub open spec fn spec_height(self) -> int {
        self.bottom - self.top
    }

    /// The box's horizontal extent.
    pub open spec fn spec_width(self) -> int {
        self.right - self.left
    }

    /// Fold the glyph set into the minimal enclosing box. Glyphs with no
    /// visible ink are skipped; an empty set yields (0, 0, 0, 0).
    pub fn compute_bounding_box(glyphs: &GlyphVec) -> (bb: BoundingBox)
        ensures
            bb == box_of(glyphs@),
    {
        let mut bb = BoundingBox { top: 0, left: 0, bottom: 0, right: 0 };
        let n = glyphs.len();
        for i in 0..n
            invariant
                n == glyphs@.len(),
                bb == box_of(glyphs@.take(i as int)),
        {
            if let Some(glyph_bb) = glyphs[i].pixel_bounding_box() {
                if glyph_bb.min_y < bb.top {
                    bb.top = glyph_bb.min_y;
                }
                if glyph_bb.min_x < bb.left {
                    bb.left = glyph_bb.min_x;
                }
                if glyph_bb.max_y > bb.bottom {
                    bb.bottom = glyph_bb.max_y;
                }
                if glyph_bb.max_x > bb.right {
                    bb.right = glyph_bb.max_x;
                }
            }
            proof {
                assert(glyphs@.take(i + 1).drop_last() =~= glyphs@.take(i as int));
                assert(glyphs@.take(i + 1).last() == glyphs@[i as int]);
            }
        }
        proof {
            assert(glyphs@.take(n as int) =~= glyphs@);
        }
        bb
    }
}

/// Every edge of `box_of(s)` is a bound for the whole set, and every
/// edge other than the seed value 0 is achieved by some glyph: the box
/// is exactly the least box around the origin-seeded glyph edges.
pub proof fn lemma_box_of_bounds(s: Seq<PositionedGlyph>)
    ensures
        box_of(s).top <= 0 <= box_of(s).bottom,
        box_of(s).left <= 0 <= box_of(s).right,
        forall|i: int| 0 <= i < s.len() && (#[trigger] s[i]).pixel_box is Some ==> {
            &&& box_of(s).top <= s[i].pixel_box->Some_0.min_y
            &&& box_of(s).left <= s[i].pixel_box->Some_0.min_x
            &&& box_of(s).bottom >= s[i].pixel_box->Some_0.max_y
            &&& box_of(s).right >= s[i].pixel_box->Some_0.max_x
        },
        box_of(s).top == 0 || exists|i: int|
            0 <= i < s.len() && (#[trigger] s[i]).pixel_box is Some
                && box_of(s).top == s[i].pixel_box->Some_0.min_y,
        box_of(s).left == 0 || exists|i: int|
            0 <= i < s.len() && (#[trigger] s[i]).pixel_box is Some
                && box_of(s).left == s[i].pixel_box->Some_0.min_x,
        box_of(s).bottom == 0 || exists|i: int|
            0 <= i < s.len() && (#[trigger] s[i]).pixel_box is Some
                && box_of(s).bottom == s[i].pixel_box->Some_0.max_y,
        box_of(s).right == 0 || exists|i: int|
            0 <= i < s.len() && (#[trigger] s[i]).pixel_box is Some
                && box_of(s).right == s[i].pixel_box->Some_0.max_x,
    decreases s.len(),
{
    if s.len() > 0 {
        lemma_box_of_bounds(s.drop_last());
        let pre = box_of(s.drop_last());
        assert(box_of(s) == expanded(pre, s.last()));
        assert(box_of(s).top <= pre.top);
        assert(box_of(s).left <= pre.left);
        assert(box_of(s).bottom >= pre.bottom);
        assert(box_of(s).right >= pre.right);
        assert forall|i: int|
            0 <= i < s.len() && (#[trigger] s[i]).pixel_box is Some implies {
            &&& box_of(s).top <= s[i].pixel_box->Some_0.min_y
            &&& box_of(s).left <= s[i].pixel_box->Some_0.min_x
            &&& box_of(s).bottom >= s[i].pixel_box->Some_0.max_y
            &&& box_of(s).right >= s[i].pixel_box->Some_0.max_x
        } by {
            if i < s.len() - 1 {
                assert(s.drop_last()[i] == s[i]);
            } else {
                assert(s.last() == s[i]);
            }
        }
    }
}

/// One direction of order-independence: each edge of `box_of(s1)` is at
/// least as wide as the matching edge of `box_of(s2)` when `s1` holds
/// every glyph of `s2`.
proof fn lemma_box_of_dominates(s1: Seq<PositionedGlyph>, s2: Seq<PositionedGlyph>)
    requires
        forall|g: PositionedGlyph| s2.contains(g) ==> s1.contains(g),
    ensures
        box_of(s1).top <= box_of(s2).top,
        box_of(s1).left <= box_of(s2).left,
        box_of(s1).bottom >= box_of(s2).bottom,
        box_of(s1).right >= box_of(s2).right,
{
    lemma_box_of_bounds(s1);
    lemma_box_of_bounds(s2);
    if box_of(s2).top != 0 {
        let i = choose|i: int|
            0 <= i < s2.len() && (#[trigger] s2[i]).pixel_box is Some
                && box_of(s2).top == s2[i].pixel_box->Some_0.min_y;
        assert(s2.contains(s2[i]));
        let j = choose|j: int| 0 <= j < s1.len() && s1[j] == s2[i];
        assert(box_of(s1).top <= s1[j].pixel_box->Some_0.min_y);
    }
    if box_of(s2).left != 0 {
        let i = choose|i: int|
            0 <= i < s2.len() && (#[trigger] s2[i]).pixel_box is Some
                && box_of(s2).left == s2[i].pixel_box->Some_0.min_x;
        assert(s2.contains(s2[i]));
        let j = choose|j: int| 0 <= j < s1.len() && s1[j] == s2[i];
        assert(box_of(s1).left <= s1[j].pixel_box->Some_0.min_x);
    }
    if box_of(s2).bottom != 0 {
        let i = choose|i: int|
            0 <= i < s2.len() && (#[trigger] s2[i]).pixel_box is Some
                && box_of(s2).bottom == s2[i].pixel_box->Some_0.max_y;
        assert(s2.contains(s2[i]));
        let j = choose|j: int| 0 <= j < s1.len() && s1[j] == s2[i];
        assert(box_of(s1).bottom >= s1[j].pixel_box->Some_0.max_y);
    }
    if box_of(s2).right != 0 {
        let i = choose|i: int|
            0 <= i < s2.len() && (#[trigger] s2[i]).pixel_box is Some
                && box_of(s2).right == s2[i].pixel_box->Some_0.max_x;
        assert(s2.contains(s2[i]));
        let j = choose|j: int| 0 <= j < s1.len() && s1[j] == s2[i];
        assert(box_of(s1).right >= s1[j].pixel_box->Some_0.max_x);
    }
}

/// Computing the bounding box is order-independent: any permutation of
/// the same glyphs (the same multiset) yields the identical box.
pub proof fn lemma_box_of_order_independent(s1: Seq<PositionedGlyph>, s2: Seq<PositionedGlyph>)
    requires
        s1.to_multiset() == s2.to_multiset(),
    ensures
        box_of(s1) == box_of(s2),
{
    s1.to_multiset_ensures();
    s2.to_multiset_ensures();
    assert forall|g: PositionedGlyph| s1.contains(g) implies s2.contains(g) by {
        assert(s1.to_multiset().count(g) > 0);
        assert(s2.to_multiset().count(g) > 0);
    }
    assert forall|g: PositionedGlyph| s2.contains(g) implies s1.contains(g) by {
        assert(s2.to_multiset().count(g) > 0);
        assert(s1.to_multiset().count(g) > 0);
    }
    lemma_box_of_dominates(s1, s2);
    lemma_box_of_dominates(s2, s1);
}

/// An empty glyph set yields the degenerate zero-area box at the origin.
pub proof fn lemma_box_of_empty()
    ensures
        box_of(Seq::<PositionedGlyph>::empty()) == (BoundingBox { top: 0, left: 0, bottom: 0, right: 0 }),
{
}

} // verus!
