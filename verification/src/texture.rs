//! Textures: a color as a function of surface coordinates and a 3D point.
//!
//! The image variant holds an already-decoded pixel grid as plain values;
//! decoding image files is left to the callers at the edge of the crate.

use crate::fixed::{div_floor, fdiv, fx_div, mod_floor, FX_ONE};
use crate::interval::sclamp;
use crate::noise::perlin::{noise_at, perlin_wf, turb_at, Perlin, PerlinV};
use crate::vector::{bounded, Color, Point, Vector3, V3};
use vstd::prelude::*;

verus! {

/// Color components within the displayable unit range.
pub open spec fn color_wf(c: V3) -> bool {
    &&& 0 <= c.x <= FX_ONE
    &&& 0 <= c.y <= FX_ONE
    &&& 0 <= c.z <= FX_ONE
}

/// Mathematical model of a decoded image.
pub ghost struct ImgV {
    pub width: int,
    pub height: int,
    pub pixels: Seq<(u8, u8, u8)>,
}

/// A decoded image: a row-major pixel grid with byte channels.
#[derive(Debug)]
pub struct ImageData {
    pub width: u32,
    pub height: u32,
    pub pixels: Vec<(u8, u8, u8)>,
}

impl View for ImageData {
    type V = ImgV;

    open spec fn view(&self) -> ImgV {
        ImgV { width: self.width as int, height: self.height as int, pixels: self.pixels@ }
    }
}

pub open spec fn image_wf(v: ImgV) -> bool {
    &&& v.pixels.len() == v.width * v.height
    &&& v.width <= 0x10000
    &&& v.height <= 0x10000
}

impl ImageData {
    pub open spec fn wf(&self) -> bool {
        image_wf(self@)
    }

    /// Packs an already-decoded pixel grid.
    pub fn new(width: u32, height: u32, pixels: Vec<(u8, u8, u8)>) -> (r: Self)
        requires
            pixels@.len() == width * height,
            width <= 0x10000,
            height <= 0x10000,
        ensures
            r.wf(),
            r@ == (ImgV { width: width as int, height: height as int, pixels: pixels@ }),
    {
        Self { width, height, pixels }
    }
}

/// Mathematical model of a texture.
pub ghost enum TexV {
    Solid(V3),
    Checkered { even: V3, odd: V3, scale: int },
    Image(ImgV),
    Perlin(PerlinV),
    Turbulence(PerlinV),
}

pub enum Texture {
    SolidColor(Color),
    Checkered { even: Color, odd: Color, scale: i64 },
    Image(ImageData),
    Perlin(Perlin),
    Turbulence(Perlin),
}

impl View for Texture {
    type V = TexV;

    open spec fn view(&self) -> TexV {
        match self {
            Texture::SolidColor(c) => TexV::Solid(c@),
            Texture::Checkered { even, odd, scale } => TexV::Checkered {
                even: even@,
                odd: odd@,
                scale: *scale as int,
            },
            Texture::Image(img) => TexV::Image(img@),
            Texture::Perlin(p) => TexV::Perlin(p@),
            Texture::Turbulence(p) => TexV::Turbulence(p@),
        }
    }
}

pub open spec fn texture_wf(t: TexV) -> bool {
    match t {
        TexV::Solid(c) => color_wf(c),
        TexV::Checkered { even, odd, scale } => color_wf(even) && color_wf(odd) && 1 <= scale
            <= FX_ONE * FX_ONE,
        TexV::Image(img) => image_wf(img),
        TexV::Perlin(p) => perlin_wf(p),
        TexV::Turbulence(p) => perlin_wf(p),
    }
}

/// A byte channel mapped onto the unit grid.
pub open spec fn byte_channel(b: u8) -> int {
    (b * 65536) / 255
}

/// The checkerboard cell of one coordinate: the nested grid floors compute
/// exactly the whole quotient of the coordinate by the cell size.
pub open spec fn checker_cell(x: int, scale: int) -> int {
    fdiv(x, scale) / 65536
}

/// The color a texture takes at surface coordinates `(u, v)` and point `p`.
pub open spec fn tex_color(t: TexV, u: int, v: int, p: V3) -> V3 {
    match t {
        TexV::Solid(c) => c,
        TexV::Checkered { even, odd, scale } => {
            let cells = checker_cell(p.x, scale) + checker_cell(p.y, scale) + checker_cell(
                p.z,
                scale,
            );
            if cells % 2 == 0 {
                even
            } else {
                odd
            }
        },
        TexV::Image(img) => {
            if img.height == 0 || img.width == 0 {
                V3 { x: 0, y: FX_ONE as int, z: FX_ONE as int }
            } else {
                let uc = sclamp(0, FX_ONE as int, u);
                let vc = FX_ONE - sclamp(0, FX_ONE as int, v);
                let i0 = (uc * img.width) / 65536;
                let j0 = (vc * img.height) / 65536;
                let i = if i0 < img.width { i0 } else { img.width - 1 };
                let j = if j0 < img.height { j0 } else { img.height - 1 };
                let px = img.pixels[j * img.width + i];
                V3 { x: byte_channel(px.0), y: byte_channel(px.1), z: byte_channel(px.2) }
            }
        },
        TexV::Perlin(n) => {
            let g = sclamp(0, FX_ONE as int, noise_at(n, p));
            V3 { x: g, y: g, z: g }
        },
        TexV::Turbulence(n) => {
            let g = sclamp(0, FX_ONE as int, turb_at(n, p, 7, FX_ONE as int));
            V3 { x: g, y: g, z: g }
        },
    }
}

impl Texture {
    pub open spec fn wf(&self) -> bool {
        texture_wf(self@)
    }

    /// Evaluates the texture: exactly `tex_color` on the model, and always a
    /// displayable color.
    pub fn color(&self, u: i64, v: i64, point: &Point) -> (r: Color)
        requires
            self.wf(),
            bounded(point@, 0x10000000),
        ensures
            r@ == tex_color(self@, u as int, v as int, point@),
            color_wf(r@),
    {
        match self {
            Texture::SolidColor(color) => *color,
            Texture::Checkered { even, odd, scale } => {
                proof {
                    crate::fixed::lemma_fdiv_bound(point@.x, *scale as int, 0x10000000);
                    crate::fixed::lemma_fdiv_bound(point@.y, *scale as int, 0x10000000);
                    crate::fixed::lemma_fdiv_bound(point@.z, *scale as int, 0x10000000);
                    crate::fixed::lemma_div_bound_by(
                        fdiv(point@.x, *scale as int),
                        0x100000000001,
                        65536,
                    );
                    crate::fixed::lemma_div_bound_by(
                        fdiv(point@.y, *scale as int),
                        0x100000000001,
                        65536,
                    );
                    crate::fixed::lemma_div_bound_by(
                        fdiv(point@.z, *scale as int),
                        0x100000000001,
                        65536,
                    );
                }
                let xi = div_floor(fx_div(point.x, *scale), 65536);
                let yi = div_floor(fx_div(point.y, *scale), 65536);
                let zi = div_floor(fx_div(point.z, *scale), 65536);
                let is_even = mod_floor(xi + yi + zi, 2) == 0;
                if is_even {
                    *even
                } else {
                    *odd
                }
            },
            Texture::Image(image) => {
                if image.height == 0 || image.width == 0 {
                    Vector3::new(0, FX_ONE, FX_ONE)
                } else {
                    let intensity = crate::interval::Interval::new(0, FX_ONE);
                    let uc = intensity.clamp(u);
                    let vc = FX_ONE - intensity.clamp(v);
                    proof {
                        assert(self@ == TexV::Image(image@));
                        assert(image_wf(image@));
                        assert(image.width <= 0x10000);
                        assert(0 <= uc * (image.width as int) <= 0x100000000)
                            by (nonlinear_arith)
                            requires
                                0 <= uc <= 65536,
                                0 <= image.width <= 0x10000,
                        ;
                        assert(0 <= vc * (image.height as int) <= 0x100000000)
                            by (nonlinear_arith)
                            requires
                                0 <= vc <= 65536,
                                0 <= image.height <= 0x10000,
                        ;
                    }
                    let i0 = div_floor(uc * (image.width as i64), 65536);
                    let j0 = div_floor(vc * (image.height as i64), 65536);
                    let wi = image.width as i64;
                    let hi = image.height as i64;
                    let i = if i0 < wi {
                        i0
                    } else {
                        wi - 1
                    };
                    let j = if j0 < hi {
                        j0
                    } else {
                        hi - 1
                    };
                    proof {
                        vstd::arithmetic::div_mod::lemma_div_is_ordered(
                            0,
                            uc * image.width as int,
                            65536,
                        );
                        vstd::arithmetic::div_mod::lemma_div_is_ordered(
                            0,
                            vc * image.height as int,
                            65536,
                        );
                        assert(j * image.width as int + i < image.height as int
                            * image.width as int) by (nonlinear_arith)
                            requires
                                0 <= i < image.width as int,
                                0 <= j < image.height as int,
                        ;
                        assert(image.height as int * image.width as int == image.width as int
                            * image.height as int) by (nonlinear_arith);
                    }
                    proof {
                        assert(0 <= j * wi <= 0xFFFF0000) by (nonlinear_arith)
                            requires
                                0 <= j <= 0xFFFF,
                                0 <= wi <= 0x10000,
                        ;
                    }
                    let idx = ((j * wi) + i) as usize;
                    let px = image.pixels[idx];
                    Vector3::new(byte_to_fx(px.0), byte_to_fx(px.1), byte_to_fx(px.2))
                }
            },
            Texture::Perlin(perlin) => {
                let noise = perlin.noise(point);
                let g = clamp_unit(noise);
                Vector3::from_one(g)
            },
            Texture::Turbulence(perlin) => {
                let noise = perlin.turbulence(point, 7);
                let g = clamp_unit(noise);
                Vector3::from_one(g)
            },
        }
    }
}

/// One byte channel on the grid.
fn byte_to_fx(b: u8) -> (r: i64)
    ensures
        r == byte_channel(b),
        0 <= r <= FX_ONE,
{
    proof {
        vstd::arithmetic::div_mod::lemma_div_is_ordered(b * 65536, 16711680, 255);
        vstd::arithmetic::div_mod::lemma_div_is_ordered(0, b * 65536, 255);
        assert(16711680int / 255 == 65536) by (nonlinear_arith);
    }
    div_floor((b as i64) * 65536, 255)
}

/// A scalar clamped to the displayable unit range.
fn clamp_unit(x: i64) -> (r: i64)
    ensures
        r == sclamp(0, FX_ONE as int, x as int),
        0 <= r <= FX_ONE,
{
    if x < 0 {
        0
    } else if x > FX_ONE {
        FX_ONE
    } else {
        x
    }
}

/// An element-by-element copy of a pixel grid.
fn clone_pixels(v: &Vec<(u8, u8, u8)>) -> (r: Vec<(u8, u8, u8)>)
    ensures
        r@ == v@,
{
    let mut r: Vec<(u8, u8, u8)> = Vec::new();
    let mut i: usize = 0;
    while i < v.len()
        invariant
            i <= v@.len(),
            r@ == v@.subrange(0, i as int),
        decreases v@.len() - i,
    {
        r.push(v[i]);
        i = i + 1;
    }
    proof {
        assert(r@ =~= v@);
    }
    r
}

impl Clone for ImageData {
    /// A clone carries the same pixel grid.
    fn clone(&self) -> (r: Self)
        ensures
            r@ == self@,
    {
        Self { width: self.width, height: self.height, pixels: clone_pixels(&self.pixels) }
    }
}

impl Clone for Texture {
    /// A clone evaluates exactly as the original.
    fn clone(&self) -> (r: Self)
        ensures
            r@ == self@,
    {
        match self {
            Texture::SolidColor(c) => Texture::SolidColor(*c),
            Texture::Checkered { even, odd, scale } => Texture::Checkered {
                even: *even,
                odd: *odd,
                scale: *scale,
            },
            Texture::Image(img) => Texture::Image(img.clone()),
            Texture::Perlin(p) => Texture::Perlin(p.clone()),
            Texture::Turbulence(p) => Texture::Turbulence(p.clone()),
        }
    }
}

impl From<Color> for Texture {
    fn from(value: Color) -> (r: Texture) {
        Texture::SolidColor(value)
    }
}

impl vstd::std_specs::convert::FromSpecImpl<Color> for Texture {
    open spec fn obeys_from_spec() -> bool {
        true
    }

    open spec fn from_spec(value: Color) -> Texture {
        Texture::SolidColor(value)
    }
}

} // verus!
