use vstd::prelude::*;
use crate::error::PoetryWallError;

verus! {

/// The color a CSS/SVG name stands for, if any: what
/// `palette::named::from_str` returns, as an (r, g, b) triple.
pub uninterp spec fn css_color_of(name: Seq<char>) -> Option<(u8, u8, u8)>;

/// Relies on `palette::named::from_str`: a lookup in the crate's fixed
/// table of SVG/CSS3 color names, so the result depends on the name alone.
#[verifier::external_body]
fn lookup_named_color(name: &str) -> (r: Option<(u8, u8, u8)>)
    ensures
        r == css_color_of(name@),
{
    palette::named::from_str(name).map(|c| (c.red, c.green, c.blue))
}

/// An 8-bit RGB color. Alpha is not stored: blending takes a coverage
/// weight per call, and every pixel this crate writes is fully opaque.
#[derive(Clone, Copy, Debug, PartialEq, Eq, Structural)]
pub struct Color {
    pub red: u8,
    pub green: u8,
    pub blue: u8,
}

/// One channel of `foreground over background` at the given coverage,
/// computed in 255ths and re-quantized by truncation: the same direction
/// of rounding as the original normalized-byte blend.
pub open spec fn blend_channel(fg: u8, bg: u8, alpha: u8) -> u8 {
    (((fg as int) * (alpha as int) + (bg as int) * (255 - alpha as int)) / 255) as u8
}

/// `foreground over background`, each channel blended independently.
pub open spec fn blend(fg: Color, bg: Color, alpha: u8) -> Color {
    Color {
        red: blend_channel(fg.red, bg.red, alpha),
        green: blend_channel(fg.green, bg.green, alpha),
        blue: blend_channel(fg.blue, bg.blue, alpha),
    }
}

proof fn lemma_blend_channel_bounds(fg: u8, bg: u8, alpha: u8)
    ensures
        0 <= (fg as int) * (alpha as int) + (bg as int) * (255 - alpha as int) <= 255 * 255,
{
    assert((fg as int) * (alpha as int) + (bg as int) * (255 - alpha as int) <= 255 * 255)
        by (nonlinear_arith)
        requires fg <= 255 && bg <= 255 && alpha <= 255;
    assert((fg as int) * (alpha as int) + (bg as int) * (255 - alpha as int) >= 0)
        by (nonlinear_arith)
        requires alpha <= 255;
}

impl Color {
    pub fn new(red: u8, green: u8, blue: u8) -> (c: Color)
        ensures
            c == (Color { red, green, blue }),
    {
        Color { red, green, blue }
    }

    /// The three channels as a plain triple, in (red, green, blue) order.
    pub fn srgb(&self) -> (rgb: (u8, u8, u8))
        ensures
            rgb == (self.red, self.green, self.blue),
    {
        (self.red, self.green, self.blue)
    }

    /// Blend this color over `background`, weighted by `alpha`, a coverage
    /// value in 255ths (0 is fully transparent, 255 fully opaque). Each
    /// channel is `fg * alpha + bg * (255 - alpha)`, truncated back to
    /// 8 bits.
    pub fn alpha_composite(&self, background: &Color, alpha: u8) -> (c: Color)
        ensures
            c == blend(*self, *background, alpha),
    {
        proof {
            lemma_blend_channel_bounds(self.red, background.red, alpha);
            lemma_blend_channel_bounds(self.green, background.green, alpha);
            lemma_blend_channel_bounds(self.blue, background.blue, alpha);
        }
        let red = ((self.red as u32) * (alpha as u32)
            + (background.red as u32) * (255 - alpha as u32)) / 255;
        let green = ((self.green as u32) * (alpha as u32)
            + (background.green as u32) * (255 - alpha as u32)) / 255;
        let blue = ((self.blue as u32) * (alpha as u32)
            + (background.blue as u32) * (255 - alpha as u32)) / 255;
        Color { red: red as u8, green: green as u8, blue: blue as u8 }
    }

    /// Look a color up by its CSS/SVG name. An unknown name comes back as
    /// `ColorError` carrying the name that failed.
    pub fn from_str(s: &str) -> (r: Result<Color, PoetryWallError>)
        ensures
            css_color_of(s@) is Some ==> r == Ok::<Color, PoetryWallError>(Color {
                red: css_color_of(s@)->Some_0.0,
                green: css_color_of(s@)->Some_0.1,
                blue: css_color_of(s@)->Some_0.2,
            }),
            css_color_of(s@) is None ==> (r matches Err(PoetryWallError::ColorError(Some(m)))
                && m@ == s@),
    {
        match lookup_named_color(s) {
            Some((red, green, blue)) => Ok(Color { red, green, blue }),
            None => Err(PoetryWallError::ColorError(Some(s.to_owned()))),
        }
    }

    /// The color as an RGBA byte quadruple, fully opaque.
    pub fn as_array(&self) -> (bytes: [u8; 4])
        ensures
            bytes@ == seq![self.red, self.green, self.blue, 255u8],
    {
        let bytes = [self.red, self.green, self.blue, 255];
        proof {
            assert(bytes@ =~= seq![self.red, self.green, self.blue, 255u8]);
        }
        bytes
    }
}

/// Blending a color with itself leaves it unchanged, at every coverage:
/// the two weighted halves add back up to the whole channel, and
/// `c * 255 / 255` truncates to exactly `c`.
pub proof fn lemma_blend_self(c: Color, alpha: u8)
    ensures
        blend(c, c, alpha) == c,
{
    lemma_blend_channel_self(c.red, alpha);
    lemma_blend_channel_self(c.green, alpha);
    lemma_blend_channel_self(c.blue, alpha);
}

proof fn lemma_blend_channel_self(ch: u8, alpha: u8)
    ensures
        blend_channel(ch, ch, alpha) == ch,
{
    assert((ch as int) * (alpha as int) + (ch as int) * (255 - alpha as int) == (ch as int) * 255)
        by (nonlinear_arith);
    assert((ch as int) * 255 / 255 == ch as int) by (nonlinear_arith);
}

/// At zero coverage the background comes back exactly; at full coverage
/// (255) the foreground does.
pub proof fn lemma_blend_extremes(fg: Color, bg: Color)
    ensures
        blend(fg, bg, 0) == bg,
        blend(fg, bg, 255) == fg,
{
    assert(blend_channel(fg.red, bg.red, 0) == bg.red);
    assert(blend_channel(fg.green, bg.green, 0) == bg.green);
    assert(blend_channel(fg.blue, bg.blue, 0) == bg.blue);
    assert(blend_channel(fg.red, bg.red, 255) == fg.red);
    assert(blend_channel(fg.green, bg.green, 255) == fg.green);
    assert(blend_channel(fg.blue, bg.blue, 255) == fg.blue);
}

} // verus!
