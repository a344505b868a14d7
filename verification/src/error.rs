use vstd::prelude::*;

verus! {

/// Everything that can go wrong while building a poster. I/O and
/// font-loading failures are reported by the callers that perform them;
/// they carry their cause here as plain text.
#[derive(Debug)]
pub enum PoetryWallError {
    /// A command-line option was missing or unreadable.
    InvalidMissingOption(String),
    /// Reading the poem or writing the image failed.
    IOError(String),
    /// The font file could not be parsed.
    FontReadError(String),
    /// An unknown color name (`Some`), or none given at all (`None`).
    ColorError(Option<String>),
    /// A dimension string that is not `WIDTHxHEIGHT`.
    DimensionReadError(String),
    /// The text cannot be shrunk to fit the target height.
    UnfittableLayout,
}

} // verus!
