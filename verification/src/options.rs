use vstd::prelude::*;
use crate::color::Color;
use crate::dimension::Dimension;

verus! {

/// Everything one render needs: file locations, the starting point
/// size, colors, the canvas size and optional placement overrides. The
/// file fields are plain paths as text; opening them is the caller's
/// business.
#[derive(Debug)]
pub struct PoetryWallOptions {
    pub poem_file: String,
    pub font_file: String,
    /// The starting (maximum) point size, in thousandths of a point;
    /// the fitting loop only ever shrinks it.
    pub font_size: u32,
    pub color: Color,
    pub background: Color,
    pub dimensions: Dimension,
    /// Explicit top margin in pixels, or `None` to have it computed.
    pub top: Option<u32>,
    /// Explicit left margin in pixels, or `None` to have it computed.
    pub left: Option<u32>,
    pub output_file: String,
}

impl PoetryWallOptions {
    pub fn new(
        poem_file: String,
        font_file: String,
        font_size: u32,
        color: Color,
        background: Color,
        dimensions: Dimension,
        top: Option<u32>,
        left: Option<u32>,
        output_file: String,
    ) -> (o: PoetryWallOptions)
        ensures
            o == (PoetryWallOptions {
                poem_file,
                font_file,
                font_size,
                color,
                background,
                dimensions,
                top,
                left,
                output_file,
            }),
    {
        PoetryWallOptions {
            poem_file,
            font_file,
            font_size,
            color,
            background,
            dimensions,
            left,
            top,
            output_file,
        }
    }
}

} // verus!
