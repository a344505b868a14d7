use vstd::prelude::*;

verus! {

/// The integer pixel rectangle a glyph's ink covers, as the font
/// capability reports it: inclusive corners in canvas coordinates.
#[derive(Clone, Copy, Debug, PartialEq, Eq, Structural)]
pub struct PixelBox {
    pub min_x: i32,
    pub min_y: i32,
    pub max_x: i32,
    pub max_y: i32,
}

/// One anti-aliased pixel of a glyph: local coordinates inside the
/// glyph's pixel box, and a coverage weight in 255ths.
#[derive(Clone, Copy, Debug, PartialEq, Eq, Structural)]
pub struct CoveredPixel {
    pub x: u32,
    pub y: u32,
    pub coverage: u8,
}

/// A glyph as this crate reads it: its pixel bounding box (`None` for
/// glyphs with no visible ink, such as spaces) and the pixels its ink
/// covers. The outside rasterizer produces these; the crate only reads
/// them.
#[derive(Debug)]
pub struct PositionedGlyph {
    pub pixel_box: Option<PixelBox>,
    pub pixels: Vec<CoveredPixel>,
}

impl PositionedGlyph {
    /// The glyph's pixel bounding box, or `None` when it has no ink.
    pub fn pixel_bounding_box(&self) -> (r: Option<PixelBox>)
        ensures
            r == self.pixel_box,
    {
        self.pixel_box
    }
}

/// The glyphs of a laid-out text block, in line order and, within a
/// line, in drawing order.
pub type GlyphVec = Vec<PositionedGlyph>;

} // verus!
