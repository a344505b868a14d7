//! A poster generator core: fits lines of text onto a fixed-size canvas by
//! shrinking the font scale until the text's bounding box fits the target
//! height, then composites anti-aliased glyph coverage over a solid
//! background color.
//!
//! Font parsing, glyph rasterization and image encoding are outside
//! collaborators; this crate holds the layout, fitting, measuring and
//! blending logic, each function with a verified contract.

pub mod bounding_box;
pub mod color;
pub mod dimension;
pub mod error;
pub mod font;
pub mod image_utils;
pub mod metrics;
pub mod options;
pub mod poem;

pub use bounding_box::BoundingBox;
pub use color::Color;
pub use dimension::Dimension;
pub use error::PoetryWallError;
pub use font::{GlyphVec, PositionedGlyph};
pub use image_utils::Image;
pub use metrics::{FitOutcome, LineOrigin, Metrics};
pub use options::PoetryWallOptions;
pub use poem::Poem;
