//! Decoded texture images and the cube-face lookup that reads them like a
//! cloth wrapped over a cube: each face maps to one of six fixed quadrants
//! of a cross-shaped sprite sheet.

use vstd::arithmetic::div_mod::lemma_fundamental_div_mod_converse;
use vstd::prelude::*;

use crate::color::{color_of_hex, from_hex_value, Color};

verus! {

/// The face of a cube that a ray struck, or `NONE` for primitives without
/// faces (a sphere) and for degenerate hits.
#[derive(Debug, Clone, Copy, PartialEq, Eq, Structural)]
#[allow(non_camel_case_types)]
pub enum CubeFace {
    NONE,
    TOP,
    BOTTOM,
    FORWARDS,
    BACKWARDS,
    LEFT,
    RIGHT,
}

/// The closed set of texture identifiers that materials can refer to.
#[derive(Debug, Clone, Copy, PartialEq, Eq, Structural)]
#[allow(non_camel_case_types)]
pub enum Textures {
    DIRT,
    STONE,
    MOSS,
    WATER,
    OBSIDIAN,
    PORTAL,
    NETHERRACK,
    MAGMA,
}

#[verifier::external_type_specification]
#[verifier::external_body]
pub struct ExDynamicImage(image::DynamicImage);

pub uninterp spec fn image_width(img: image::DynamicImage) -> u32;

pub uninterp spec fn image_height(img: image::DynamicImage) -> u32;

pub uninterp spec fn image_pixel(img: image::DynamicImage, x: u32, y: u32) -> (u8, u8, u8);

/// Relies on image::GenericImageView::width: the width of a decoded image,
/// which depends on the image value alone.
#[verifier::external_body]
fn img_width(img: &image::DynamicImage) -> (r: u32)
    ensures
        r == image_width(*img),
{
    image::GenericImageView::width(img)
}

/// Relies on image::GenericImageView::height: the height of a decoded
/// image, which depends on the image value alone.
#[verifier::external_body]
fn img_height(img: &image::DynamicImage) -> (r: u32)
    ensures
        r == image_height(*img),
{
    image::GenericImageView::height(img)
}

/// Relies on image::GenericImageView::get_pixel (which panics out of
/// bounds, so the bounds are required here) and image::Pixel::to_rgb: the
/// red, green and blue channels of the pixel at `(x, y)`, which depend on
/// the image value and the coordinates alone.
#[verifier::external_body]
fn img_pixel(img: &image::DynamicImage, x: u32, y: u32) -> (c: Color)
    requires
        x < image_width(*img),
        y < image_height(*img),
    ensures
        (c.r, c.g, c.b) == image_pixel(*img, x, y),
{
    let pixel = image::GenericImageView::get_pixel(img, x, y);
    let rgb = image::Pixel::to_rgb(&pixel);
    Color { r: rgb[0], g: rgb[1], b: rgb[2] }
}

/// Reads a decoded image's width and height, so that a caller can check
/// that the pixel count fits in memory before building a texture from it.
pub fn image_dimensions(img: &image::DynamicImage) -> (r: (u32, u32))
    ensures
        r.0 == image_width(*img),
        r.1 == image_height(*img),
{
    (img_width(img), img_height(img))
}

/// The channel triple a color holds, for comparing against decoded pixels.
pub open spec fn rgb_of(c: Color) -> (u8, u8, u8) {
    (c.r, c.g, c.b)
}

/// A decoded width-by-height color raster plus the fixed sprite cell size
/// used by the cube-face lookup.
#[derive(Debug)]
pub struct Texture {
    pub width: u32,
    pub height: u32,
    pub sprite_size: usize,
    pub colors: Vec<Color>,
}

/// Where a face's quadrant starts in the cross-shaped sheet, in sprite
/// cells of size `s`. `NONE` has no quadrant.
pub open spec fn face_origin(face: CubeFace, s: int) -> (int, int) {
    match face {
        CubeFace::TOP => (s, s),
        CubeFace::BOTTOM => (s, 3 * s),
        CubeFace::FORWARDS => (s, 0int),
        CubeFace::BACKWARDS => (s, 2 * s),
        CubeFace::LEFT => (0int, s),
        CubeFace::RIGHT => (2 * s, s),
        CubeFace::NONE => (0int, 0int),
    }
}

/// `v` clamped into `[lo, hi]`.
pub open spec fn clamp_to(v: int, lo: int, hi: int) -> int {
    if v < lo {
        lo
    } else if v > hi {
        hi
    } else {
        v
    }
}

impl Texture {
    /// Well-formedness: one stored color per pixel.
    pub open spec fn wf(&self) -> bool {
        &&& self.colors@.len() == self.width * self.height
        &&& self.width * self.height <= usize::MAX
    }

    /// Builds a texture directly from an already decoded pixel raster,
    /// stored row-major with the origin at the top-left corner.
    pub fn from_pixels(width: u32, height: u32, sprite_size: usize, colors: Vec<Color>) -> (t:
        Self)
        requires
            colors@.len() == width * height,
            width * height <= usize::MAX,
        ensures
            t.wf(),
            t.width == width,
            t.height == height,
            t.sprite_size == sprite_size,
            t.colors@ == colors@,
    {
        Texture { width, height, sprite_size, colors }
    }

    /// Reads every pixel of a decoded image into a texture whose raster
    /// matches the image exactly.
    #[verifier::loop_isolation(false)]
    pub fn new(img: &image::DynamicImage, sprite_size: usize) -> (t: Self)
        requires
            image_width(*img) * image_height(*img) <= usize::MAX,
        ensures
            t.wf(),
            t.width == image_width(*img),
            t.height == image_height(*img),
            t.sprite_size == sprite_size,
            forall|x: u32, y: u32|
                x < t.width && y < t.height ==> rgb_of(
                    t.colors@[y * t.width + x],
                ) == #[trigger] image_pixel(*img, x, y),
    {
        let width = img_width(img);
        let height = img_height(img);
        let ghost w = width as int;
        let ghost h = height as int;
        let mut colors: Vec<Color> = Vec::new();
        let mut y: u32 = 0;
        while y < height
            invariant
                y <= height,
                colors@.len() == y * w,
                forall|j: int|
                    0 <= j < colors@.len() ==> rgb_of(colors@[j]) == #[trigger] image_pixel(
                        *img,
                        (j % w) as u32,
                        (j / w) as u32,
                    ),
            decreases height - y,
        {
            let mut x: u32 = 0;
            proof {
                assert((y + 1) * w == y * w + w) by (nonlinear_arith);
                assert(y * w + w <= h * w && h * w == w * h) by (nonlinear_arith)
                    requires
                        y < h,
                        w >= 0,
                        h >= 0,
                ;
            }
            while x < width
                invariant
                    x <= width,
                    y < height,
                    colors@.len() == y * w + x,
                    y * w + w <= w * h,
                    forall|j: int|
                        0 <= j < colors@.len() ==> rgb_of(colors@[j]) == #[trigger] image_pixel(
                            *img,
                            (j % w) as u32,
                            (j / w) as u32,
                        ),
                decreases width - x,
            {
                let c = img_pixel(img, x, y);
                proof {
                    lemma_fundamental_div_mod_converse(
                        y as int * w + x as int,
                        w,
                        y as int,
                        x as int,
                    );
                }
                colors.push(c);
                x = x + 1;
            }
            y = y + 1;
        }
        let t = Texture { width, height, sprite_size, colors };
        proof {
            assert(t.colors@.len() == w * h) by (nonlinear_arith)
                requires
                    t.colors@.len() == h * w,
            ;
            assert forall|x: u32, y2: u32| x < t.width && y2 < t.height implies rgb_of(
                t.colors@[y2 * t.width + x],
            ) == #[trigger] image_pixel(*img, x, y2) by {
                let j = y2 as int * w + x as int;
                lemma_fundamental_div_mod_converse(j, w, y2 as int, x as int);
                assert(j < w * h) by (nonlinear_arith)
                    requires
                        0 <= x < w,
                        0 <= y2 < h,
                        j == y2 as int * w + x as int,
                ;
                assert((j % w) as u32 == x && (j / w) as u32 == y2);
                assert(rgb_of(t.colors@[j]) == image_pixel(*img, (j % w) as u32, (j / w) as u32));
            }
        }
        t
    }

    /// Reads the stored color of the pixel at `(x, y)`.
    pub fn get_pixel_color(&self, x: u32, y: u32) -> (c: Color)
        requires
            self.wf(),
            x < self.width,
            y < self.height,
        ensures
            c == self.colors@[y * self.width + x],
    {
        proof {
            assert((y as int) * (self.width as int) + (x as int) < (self.width as int) * (
            self.height as int)) by (nonlinear_arith)
                requires
                    x < self.width,
                    y < self.height,
            ;
        }
        let idx = (y as usize) * (self.width as usize) + (x as usize);
        self.colors[idx]
    }

    /// The color that the cube-face lookup returns: magenta for `NONE`
    /// (the diagnostic for unmapped faces), otherwise the pixel at the
    /// face's quadrant origin offset by the local coordinates, clamped to
    /// stay inside the quadrant.
    pub open spec fn spec_color_of_face(self, face: CubeFace, x: int, y: int) -> Color {
        if face is NONE {
            color_of_hex(0xff00ff)
        } else {
            let s = self.sprite_size as int;
            let ox = face_origin(face, s).0;
            let oy = face_origin(face, s).1;
            self.colors@[clamp_to(oy + y, oy, oy + s - 1) * self.width + clamp_to(
                ox + x,
                ox,
                ox + s - 1,
            )]
        }
    }

    /// Looks a local face coordinate up in the sprite sheet, assuming the
    /// sheet is laid out like a cloth put over the cube. The coordinates
    /// are local pixel offsets inside the face's quadrant and are clamped
    /// to the quadrant's bounds; the sheet must be at least three cells
    /// wide and four cells tall for any face other than `NONE`.
    pub fn get_color_of_face(&self, face: &CubeFace, x: i64, y: i64) -> (c: Color)
        requires
            self.wf(),
            !(face is NONE) ==> 1 <= self.sprite_size && 3 * self.sprite_size <= self.width && 4
                * self.sprite_size <= self.height,
        ensures
            c == self.spec_color_of_face(*face, x as int, y as int),
    {
        let s = self.sprite_size;
        let (origin_x, origin_y): (usize, usize) = match face {
            CubeFace::TOP => (s, s),
            CubeFace::BOTTOM => (s, 3 * s),
            CubeFace::FORWARDS => (s, 0),
            CubeFace::BACKWARDS => (s, 2 * s),
            CubeFace::LEFT => (0, s),
            CubeFace::RIGHT => (2 * s, s),
            CubeFace::NONE => {
                return from_hex_value(&0xff00ff);
            },
        };
        let local_x: usize = if x < 0 {
            0
        } else if (x as u64) > ((s - 1) as u64) {
            s - 1
        } else {
            x as usize
        };
        let local_y: usize = if y < 0 {
            0
        } else if (y as u64) > ((s - 1) as u64) {
            s - 1
        } else {
            y as usize
        };
        let px = origin_x + local_x;
        let py = origin_y + local_y;
        assert(px == clamp_to(origin_x + x, origin_x as int, origin_x + s - 1));
        assert(py == clamp_to(origin_y + y, origin_y as int, origin_y + s - 1));
        self.get_pixel_color(px as u32, py as u32)
    }
}

/// The named set of decoded textures that materials refer to.
pub struct GameTextures {
    pub dirt: Texture,
    pub stone: Texture,
    pub moss: Texture,
    pub water: Texture,
    pub obsidian: Texture,
    pub portal: Texture,
    pub netherrack: Texture,
    pub magma: Texture,
}

impl GameTextures {
    /// The texture that a given identifier names.
    pub open spec fn texture_for(self, tx_type: Textures) -> Texture {
        match tx_type {
            Textures::DIRT => self.dirt,
            Textures::STONE => self.stone,
            Textures::MOSS => self.moss,
            Textures::WATER => self.water,
            Textures::OBSIDIAN => self.obsidian,
            Textures::PORTAL => self.portal,
            Textures::NETHERRACK => self.netherrack,
            Textures::MAGMA => self.magma,
        }
    }

    /// Assembles the texture store from the eight decoded textures.
    pub fn new(
        dirt: Texture,
        stone: Texture,
        moss: Texture,
        water: Texture,
        obsidian: Texture,
        portal: Texture,
        netherrack: Texture,
        magma: Texture,
    ) -> (t: Self)
        ensures
            t.dirt == dirt,
            t.stone == stone,
            t.moss == moss,
            t.water == water,
            t.obsidian == obsidian,
            t.portal == portal,
            t.netherrack == netherrack,
            t.magma == magma,
    {
        GameTextures { dirt, stone, moss, water, obsidian, portal, netherrack, magma }
    }

    /// Total lookup from a texture identifier to its texture: the
    /// enumeration is closed, so there is no missing-key case.
    pub fn get_texture(&self, tx_type: &Textures) -> (t: &Texture)
        ensures
            *t == self.texture_for(*tx_type),
    {
        match tx_type {
            Textures::DIRT => &self.dirt,
            Textures::STONE => &self.stone,
            Textures::MOSS => &self.moss,
            Textures::WATER => &self.water,
            Textures::OBSIDIAN => &self.obsidian,
            Textures::PORTAL => &self.portal,
            Textures::NETHERRACK => &self.netherrack,
            Textures::MAGMA => &self.magma,
        }
    }
}

} // verus!
