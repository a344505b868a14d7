use vstd::prelude::*;
use crate::color::{blend, Color};
use crate::font::{CoveredPixel, GlyphVec};

verus! {

/// A width-by-height grid of colors, row-major: pixel (x, y) lives at
/// index `y * width + x`. Pixels carry no alpha; every pixel is fully
/// opaque when the grid is turned into bytes.
pub struct Image {
    width: u32,
    height: u32,
    pixels: Vec<Color>,
}

/// A pixel's flat index stays inside the grid.
proof fn lemma_pixel_index(x: int, y: int, w: int, h: int)
    requires
        0 <= x < w,
        0 <= y < h,
    ensures
        0 <= y * w + x < w * h,
{
    assert(0 <= y * w + x < w * h) by (nonlinear_arith)
        requires 0 <= x < w && 0 <= y < h;
}

impl Image {
    pub closed spec fn spec_width(self) -> u32 {
        self.width
    }

    pub closed spec fn spec_height(self) -> u32 {
        self.height
    }

    /// The grid's contents, row-major.
    pub closed spec fn spec_pixels(self) -> Seq<Color> {
        self.pixels@
    }

    /// The grid holds exactly one color per pixel.
    pub open spec fn wf(self) -> bool {
        self.spec_pixels().len() == self.spec_width() * self.spec_height()
    }

    /// The color at (x, y).
    pub open spec fn spec_pixel(self, x: int, y: int) -> Color {
        self.spec_pixels()[y * self.spec_width() + x]
    }

    pub fn width(&self) -> (r: u32)
        ensures
            r == self.spec_width(),
    {
        self.width
    }

    pub fn height(&self) -> (r: u32)
        ensures
            r == self.spec_height(),
    {
        self.height
    }

    pub fn get_pixel(&self, x: u32, y: u32) -> (c: Color)
        requires
            self.wf(),
            x < self.spec_width(),
            y < self.spec_height(),
        ensures
            c == self.spec_pixel(x as int, y as int),
    {
        let _total = self.pixels.len();
        proof {
            lemma_pixel_index(x as int, y as int, self.spec_width() as int,
                self.spec_height() as int);
        }
        let idx = (y as usize) * (self.width as usize) + (x as usize);
        self.pixels[idx]
    }

    /// Overwrite the pixel at (x, y); everything else stays as it was.
    pub fn put_pixel(&mut self, x: u32, y: u32, color: Color)
        requires
            old(self).wf(),
            x < old(self).spec_width(),
            y < old(self).spec_height(),
        ensures
            final(self).wf(),
            final(self).spec_width() == old(self).spec_width(),
            final(self).spec_height() == old(self).spec_height(),
            final(self).spec_pixels() == old(self).spec_pixels().update(
                y * old(self).spec_width() + x,
                color,
            ),
    {
        let _total = self.pixels.len();
        proof {
            lemma_pixel_index(x as int, y as int, self.spec_width() as int,
                self.spec_height() as int);
        }
        let idx = (y as usize) * (self.width as usize) + (x as usize);
        self.pixels[idx] = color;
    }

    /// The grid as raw RGBA bytes, four per pixel in row-major order,
    /// with alpha always 255: the layout an image encoder consumes.
    pub fn to_rgba_bytes(&self) -> (r: Vec<u8>)
        requires
            self.wf(),
            4 * self.spec_pixels().len() <= usize::MAX,
        ensures
            r@.len() == 4 * self.spec_pixels().len(),
            forall|i: int| 0 <= i < self.spec_pixels().len() ==> {
                &&& r@[4 * i] == (#[trigger] self.spec_pixels()[i]).red
                &&& r@[4 * i + 1] == self.spec_pixels()[i].green
                &&& r@[4 * i + 2] == self.spec_pixels()[i].blue
                &&& r@[4 * i + 3] == 255u8
            },
    {
        let n = self.pixels.len();
        let mut r: Vec<u8> = Vec::new();
        let mut i: usize = 0;
        while i < n
            invariant
                i <= n == self.spec_pixels().len(),
                4 * n <= usize::MAX,
                r@.len() == 4 * i,
                forall|j: int| 0 <= j < i ==> {
                    &&& r@[4 * j] == (#[trigger] self.spec_pixels()[j]).red
                    &&& r@[4 * j + 1] == self.spec_pixels()[j].green
                    &&& r@[4 * j + 2] == self.spec_pixels()[j].blue
                    &&& r@[4 * j + 3] == 255u8
                },
            decreases n - i,
        {
            let px = self.pixels[i];
            r.push(px.red);
            r.push(px.green);
            r.push(px.blue);
            r.push(255);
            i = i + 1;
        }
        r
    }
}

/// A canvas of the given size with every pixel set to the background
/// color, fully opaque: the surface glyphs are then drawn onto.
pub fn create_image(width: u32, height: u32, red: u8, green: u8, blue: u8) -> (img: Image)
    requires
        width * height <= usize::MAX,
    ensures
        img.wf(),
        img.spec_width() == width,
        img.spec_height() == height,
        forall|i: int| 0 <= i < img.spec_pixels().len() ==> #[trigger] img.spec_pixels()[i]
            == (Color { red, green, blue }),
{
    let n = (width as u64 * height as u64) as usize;
    let background = Color { red, green, blue };
    let mut pixels: Vec<Color> = Vec::new();
    let mut i: usize = 0;
    while i < n
        invariant
            i <= n,
            pixels@.len() == i,
            forall|j: int| 0 <= j < i ==> #[trigger] pixels@[j] == background,
        decreases n - i,
    {
        pixels.push(background);
        i = i + 1;
    }
    Image { width, height, pixels }
}

/// One coverage sample painted into a pixel grid: the foreground
/// blended over the background at the sample's weight, written at the
/// glyph origin plus the sample's local coordinates — or nothing at
/// all when that point falls outside the canvas.
pub open spec fn painted_sample(
    pixels: Seq<Color>,
    w: int,
    h: int,
    origin_x: int,
    origin_y: int,
    p: CoveredPixel,
    fg: Color,
    bg: Color,
) -> Seq<Color> {
    let tx = origin_x + p.x;
    let ty = origin_y + p.y;
    if 0 <= tx < w && 0 <= ty < h {
        pixels.update(ty * w + tx, blend(fg, bg, p.coverage))
    } else {
        pixels
    }
}

/// A glyph's samples painted in order.
pub open spec fn painted_samples(
    pixels: Seq<Color>,
    w: int,
    h: int,
    origin_x: int,
    origin_y: int,
    samples: Seq<CoveredPixel>,
    fg: Color,
    bg: Color,
) -> Seq<Color>
    decreases samples.len(),
{
    if samples.len() == 0 {
        pixels
    } else {
        painted_sample(
            painted_samples(pixels, w, h, origin_x, origin_y, samples.drop_last(), fg, bg),
            w,
            h,
            origin_x,
            origin_y,
            samples.last(),
            fg,
            bg,
        )
    }
}

/// One glyph painted: its samples at its pixel box's corner, or
/// nothing when it has no ink.
pub open spec fn painted_glyph(
    pixels: Seq<Color>,
    w: int,
    h: int,
    g: crate::font::PositionedGlyph,
    fg: Color,
    bg: Color,
) -> Seq<Color> {
    match g.pixel_box {
        Some(pb) => painted_samples(pixels, w, h, pb.min_x as int, pb.min_y as int, g.pixels@,
            fg, bg),
        None => pixels,
    }
}

/// All glyphs painted in order, later glyphs over earlier ones.
pub open spec fn painted_glyphs(
    pixels: Seq<Color>,
    w: int,
    h: int,
    glyphs: Seq<crate::font::PositionedGlyph>,
    fg: Color,
    bg: Color,
) -> Seq<Color>
    decreases glyphs.len(),
{
    if glyphs.len() == 0 {
        pixels
    } else {
        painted_glyph(painted_glyphs(pixels, w, h, glyphs.drop_last(), fg, bg), w, h,
            glyphs.last(), fg, bg)
    }
}

/// Paint every glyph onto the canvas: for each covered sample of each
/// inked glyph, composite the foreground over the background at the
/// sample's coverage and write the result, fully opaque, at the glyph
/// box's corner plus the sample's local coordinates. Samples whose
/// absolute coordinate falls outside the canvas are clipped, and every
/// pixel no sample reaches keeps its old color.
pub fn render_glyphs(image: &mut Image, glyphs: &GlyphVec, color: &Color, background: &Color)
    requires
        old(image).wf(),
    ensures
        final(image).wf(),
        final(image).spec_width() == old(image).spec_width(),
        final(image).spec_height() == old(image).spec_height(),
        final(image).spec_pixels() == painted_glyphs(
            old(image).spec_pixels(),
            old(image).spec_width() as int,
            old(image).spec_height() as int,
            glyphs@,
            *color,
            *background,
        ),
{
    let w = image.width();
    let h = image.height();
    let ghost pixels0 = image.spec_pixels();
    let n = glyphs.len();
    let mut g_i: usize = 0;
    while g_i < n
        invariant
            g_i <= n == glyphs@.len(),
            image.wf(),
            image.spec_width() == w,
            image.spec_height() == h,
            image.spec_pixels() == painted_glyphs(pixels0, w as int, h as int,
                glyphs@.take(g_i as int), *color, *background),
        decreases n - g_i,
    {
        let glyph = &glyphs[g_i];
        let ghost before = image.spec_pixels();
        if let Some(pb) = glyph.pixel_bounding_box() {
            let m = glyph.pixels.len();
            let mut j: usize = 0;
            while j < m
                invariant
                    j <= m == glyph.pixels@.len(),
                    glyph == &glyphs@[g_i as int],
                    glyph.pixel_box == Some(pb),
                    image.wf(),
                    image.spec_width() == w,
                    image.spec_height() == h,
                    image.spec_pixels() == painted_samples(before, w as int, h as int,
                        pb.min_x as int, pb.min_y as int, glyph.pixels@.take(j as int), *color,
                        *background),
                decreases m - j,
            {
                let p = glyph.pixels[j];
                let tx = pb.min_x as i64 + p.x as i64;
                let ty = pb.min_y as i64 + p.y as i64;
                if 0 <= tx && tx < w as i64 && 0 <= ty && ty < h as i64 {
                    let c = color.alpha_composite(background, p.coverage);
                    image.put_pixel(tx as u32, ty as u32, c);
                }
                proof {
                    let cur = glyph.pixels@.take(j + 1);
                    assert(cur.drop_last() =~= glyph.pixels@.take(j as int));
                    assert(cur.last() == glyph.pixels@[j as int]);
                }
                j = j + 1;
            }
            proof {
                assert(glyph.pixels@.take(m as int) =~= glyph.pixels@);
            }
        }
        proof {
            let cur = glyphs@.take(g_i + 1);
            assert(cur.drop_last() =~= glyphs@.take(g_i as int));
            assert(cur.last() == glyphs@[g_i as int]);
            assert(image.spec_pixels() == painted_glyph(before, w as int, h as int,
                glyphs@[g_i as int], *color, *background));
        }
        g_i = g_i + 1;
    }
    proof {
        assert(glyphs@.take(n as int) =~= glyphs@);
    }
}

} // verus!
