//! An RGBA8 pixel buffer with its dimensions.

use vstd::arithmetic::div_mod::lemma_fundamental_div_mod_converse;
use vstd::prelude::*;

verus! {

/// One RGBA pixel, eight bits per channel.
#[derive(Clone, Copy, Debug, PartialEq, Eq, Structural)]
pub struct Pixel {
    pub r: u8,
    pub g: u8,
    pub b: u8,
    pub a: u8,
}

/// The fully transparent pixel that an empty canvas is filled with.
pub open spec fn transparent() -> Pixel {
    Pixel { r: 0, g: 0, b: 0, a: 0 }
}

/// The pixel stored at `(x, y)` of a row-major RGBA8 byte sequence of the given width.
pub open spec fn pixel_in(bytes: Seq<u8>, width: int, x: int, y: int) -> Pixel {
    let base = 4 * (y * width + x);
    Pixel { r: bytes[base], g: bytes[base + 1], b: bytes[base + 2], a: bytes[base + 3] }
}

/// The number of bytes that a `width` by `height` RGBA8 image occupies.
pub open spec fn byte_len(width: int, height: int) -> int {
    4 * width * height
}

/// Byte `4 * (y * width + x) + k` belongs to channel `k` of pixel `(x, y)`.
pub proof fn lemma_locate(width: int, x: int, y: int, k: int)
    requires
        0 <= x < width,
        0 <= y,
        0 <= k < 4,
    ensures
        0 <= y * width + x,
        0 <= 4 * (y * width + x) + k,
        (4 * (y * width + x) + k) / 4 == y * width + x,
        (4 * (y * width + x) + k) % 4 == k,
        (y * width + x) / width == y,
        (y * width + x) % width == x,
{
    assert(0 <= y * width) by (nonlinear_arith)
        requires
            0 <= y,
            0 <= width,
    ;
    let p = y * width + x;
    lemma_fundamental_div_mod_converse(4 * p + k, 4, p, k);
    assert(p == y * width + x);
    lemma_fundamental_div_mod_converse(p, width, y, x);
}

/// A pixel inside a `width` by `height` image lies inside its byte range.
pub proof fn lemma_in_range(width: int, height: int, x: int, y: int)
    requires
        0 <= x < width,
        0 <= y < height,
    ensures
        0 <= y * width,
        0 <= y * width + x < width * height,
        0 <= 4 * (y * width + x),
        4 * (y * width + x) + 4 <= byte_len(width, height),
{
    assert(0 <= y * width && y * width + width <= height * width && height * width == width
        * height) by (nonlinear_arith)
        requires
            0 <= y < height,
            0 <= width,
    ;
    assert(4 * (width * height) == 4 * width * height) by (nonlinear_arith);
}

/// A decoded image as the contracts speak of it: its dimensions and its
/// row-major RGBA8 bytes.
pub struct Picture {
    pub width: int,
    pub height: int,
    pub bytes: Seq<u8>,
}

/// A decoded image: row-major RGBA8 bytes, top row first.
#[derive(Debug)]
pub struct Raster {
    width: u32,
    height: u32,
    data: Vec<u8>,
}

impl View for Raster {
    type V = Picture;

    open spec fn view(&self) -> Picture {
        Picture { width: self.spec_width(), height: self.spec_height(), bytes: self.bytes() }
    }
}

impl Raster {
    #[verifier::type_invariant]
    spec fn well_formed(self) -> bool {
        self.data@.len() == byte_len(self.width as int, self.height as int)
    }

    /// Width in pixels.
    pub closed spec fn spec_width(&self) -> int {
        self.width as int
    }

    /// Height in pixels.
    pub closed spec fn spec_height(&self) -> int {
        self.height as int
    }

    /// The raw bytes, four per pixel.
    pub closed spec fn bytes(&self) -> Seq<u8> {
        self.data@
    }

    /// The pixel at column `x`, row `y`.
    pub open spec fn pixel(&self, x: int, y: int) -> Pixel {
        pixel_in(self.bytes(), self.spec_width(), x, y)
    }

    /// Wraps raw bytes; `None` when the length does not match the dimensions.
    pub fn from_rgba(width: u32, height: u32, data: Vec<u8>) -> (r: Option<Raster>)
        ensures
            r is Some <==> data@.len() == byte_len(width as int, height as int),
            r matches Some(img) ==> img.spec_width() == width && img.spec_height() == height
                && img.bytes() == data@,
    {
        let w: u128 = width as u128;
        let h: u128 = height as u128;
        assert(w * h <= 0xFFFF_FFFF * 0xFFFF_FFFF) by (nonlinear_arith)
            requires
                w <= 0xFFFF_FFFF,
                h <= 0xFFFF_FFFF,
        ;
        let expected: u128 = 4 * (w * h);
        assert(expected == byte_len(width as int, height as int)) by (nonlinear_arith)
            requires
                expected == 4 * (w * h),
                w == width,
                h == height,
        ;
        if data.len() as u128 == expected {
            Some(Raster { width, height, data })
        } else {
            None
        }
    }

    /// Wraps bytes whose length is already known to fit.
    pub(crate) fn assemble(width: u32, height: u32, data: Vec<u8>) -> (img: Raster)
        requires
            data@.len() == byte_len(width as int, height as int),
        ensures
            img.spec_width() == width,
            img.spec_height() == height,
            img.bytes() == data@,
    {
        Raster { width, height, data }
    }

    pub fn width(&self) -> (w: u32)
        ensures
            w == self.spec_width(),
    {
        self.width
    }

    pub fn height(&self) -> (h: u32)
        ensures
            h == self.spec_height(),
    {
        self.height
    }

    /// The bytes, borrowed; their number always fits the dimensions.
    pub fn as_bytes(&self) -> (b: &Vec<u8>)
        ensures
            b@ == self.bytes(),
            b@.len() == byte_len(self.spec_width(), self.spec_height()),
    {
        proof {
            use_type_invariant(self);
        }
        &self.data
    }

    /// Gives the bytes up.
    pub fn into_raw(self) -> (b: Vec<u8>)
        ensures
            b@ == self.bytes(),
            b@.len() == byte_len(self.spec_width(), self.spec_height()),
    {
        proof {
            use_type_invariant(&self);
        }
        self.data
    }

    /// The pixel at `(x, y)`, or `None` outside the image.
    pub fn get_pixel(&self, x: u32, y: u32) -> (p: Option<Pixel>)
        ensures
            p == if x < self.spec_width() && y < self.spec_height() {
                Some(self.pixel(x as int, y as int))
            } else {
                None
            },
    {
        if x < self.width && y < self.height {
            let len: usize = self.data.len();
            proof {
                use_type_invariant(self);
                lemma_in_range(self.width as int, self.height as int, x as int, y as int);
                assert(4 * (y * self.width + x) + 4 <= len);
            }
            let base: usize = 4 * (y as usize * self.width as usize + x as usize);
            Some(
                Pixel {
                    r: self.data[base],
                    g: self.data[base + 1],
                    b: self.data[base + 2],
                    a: self.data[base + 3],
                },
            )
        } else {
            None
        }
    }
}

} // verus!
