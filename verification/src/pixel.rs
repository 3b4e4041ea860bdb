//! Packed pixels, decoded rasters and the buffers handed to the display.

use vstd::prelude::*;

verus! {

/// The packed value of one opaque pixel: alpha `0xFF` in the top byte, then
/// red, green and blue, each in a byte of its own.
pub open spec fn packed(r: u8, g: u8, b: u8) -> u32 {
    (0xFF00_0000 + r as int * 0x1_0000 + g as int * 0x100 + b as int) as u32
}

/// Whether `p` carries the fixed opaque alpha byte.
pub open spec fn is_opaque(p: u32) -> bool {
    p / 0x100_0000 == 0xFF
}

/// Red channel of a packed pixel.
pub open spec fn red_of(p: u32) -> int {
    (p as int / 0x1_0000) % 0x100
}

/// Green channel of a packed pixel.
pub open spec fn green_of(p: u32) -> int {
    (p as int / 0x100) % 0x100
}

/// Blue channel of a packed pixel.
pub open spec fn blue_of(p: u32) -> int {
    p as int % 0x100
}

/// Packing is exact: the sum never leaves 32 bits, the alpha byte is `0xFF`
/// and each channel can be read back unchanged.
pub proof fn lemma_packed_channels(r: u8, g: u8, b: u8)
    ensures
        packed(r, g, b) == 0xFF00_0000 + r as int * 0x1_0000 + g as int * 0x100 + b as int,
        is_opaque(packed(r, g, b)),
        red_of(packed(r, g, b)) == r,
        green_of(packed(r, g, b)) == g,
        blue_of(packed(r, g, b)) == b,
{
}

/// Two pixels pack to the same value only if their channels agree.
pub proof fn lemma_packed_injective(r1: u8, g1: u8, b1: u8, r2: u8, g2: u8, b2: u8)
    requires
        packed(r1, g1, b1) == packed(r2, g2, b2),
    ensures
        r1 == r2,
        g1 == g2,
        b1 == b2,
{
    lemma_packed_channels(r1, g1, b1);
    lemma_packed_channels(r2, g2, b2);
}

/// Packs one RGB pixel as `0xFF000000 | R << 16 | G << 8 | B`.
pub fn pack_rgb(r: u8, g: u8, b: u8) -> (p: u32)
    ensures
        p == packed(r, g, b),
        is_opaque(p),
{
    let p: u32 = 0xFF00_0000u32 | ((r as u32) << 16) | ((g as u32) << 8) | (b as u32);
    assert(p == (0xFF00_0000 + r as int * 0x1_0000 + g as int * 0x100 + b as int) as u32) by {
        let rr: u32 = r as u32;
        let gg: u32 = g as u32;
        let bb: u32 = b as u32;
        assert(rr < 256 && gg < 256 && bb < 256 ==> (0xFF00_0000u32 | (rr << 16) | (gg << 8) | bb)
            == 0xFF00_0000u32 + rr * 0x1_0000u32 + gg * 0x100u32 + bb) by (bit_vector);
    }
    proof {
        lemma_packed_channels(r, g, b);
    }
    p
}

/// What a decoded 8-bit RGB raster is: its dimensions and its bytes, three per
/// pixel, rows from top to bottom and pixels from left to right within a row.
pub struct RasterView {
    pub width: nat,
    pub height: nat,
    pub data: Seq<u8>,
}

impl RasterView {
    /// The bytes are exactly those of `width * height` pixels.
    pub open spec fn wf(self) -> bool {
        &&& self.width <= u32::MAX
        &&& self.height <= u32::MAX
        &&& self.data.len() == 3 * (self.width * self.height)
    }

    pub open spec fn pixel_count(self) -> nat {
        self.width * self.height
    }

    /// The packed value of pixel number `k` in row-major order.
    pub open spec fn pixel(self, k: int) -> u32 {
        packed(self.data[3 * k], self.data[3 * k + 1], self.data[3 * k + 2])
    }

    /// All pixels packed, in row-major order.
    pub open spec fn pixels(self) -> Seq<u32> {
        Seq::new(self.pixel_count(), |k: int| self.pixel(k))
    }
}

/// A decoded image with three 8-bit channels per pixel.
#[derive(Debug)]
pub struct RgbRaster {
    width: u32,
    height: u32,
    data: Vec<u8>,
}

impl View for RgbRaster {
    type V = RasterView;

    closed spec fn view(&self) -> RasterView {
        RasterView { width: self.width as nat, height: self.height as nat, data: self.data@ }
    }
}

impl RgbRaster {
    #[verifier::type_invariant]
    pub open spec fn inv(&self) -> bool {
        self@.wf()
    }

    /// Builds a raster from raw bytes. The bytes must hold at least
    /// `3 * width * height` values; what lies beyond them is dropped.
    pub fn from_raw(width: u32, height: u32, data: Vec<u8>) -> (r: Option<RgbRaster>)
        ensures
            r is Some <==> 3 * (width as nat * height as nat) <= data@.len(),
            r matches Some(raster) ==> {
                &&& raster@.wf()
                &&& raster@.width == width
                &&& raster@.height == height
                &&& raster@.data == data@.subrange(0, 3 * (width as nat * height as nat) as int)
            },
    {
        assert(width as u128 * height as u128 <= 0xFFFF_FFFFu128 * 0xFFFF_FFFFu128)
            by (nonlinear_arith)
            requires
                width as u128 <= 0xFFFF_FFFFu128,
                height as u128 <= 0xFFFF_FFFFu128,
        ;
        let needed: u128 = 3u128 * (width as u128 * height as u128);
        if needed > data.len() as u128 {
            return None;
        }
        let mut data = data;
        data.truncate(needed as usize);
        Some(RgbRaster { width, height, data })
    }

    pub fn width(&self) -> (w: u32)
        ensures
            w == self@.width,
    {
        self.width
    }

    pub fn height(&self) -> (h: u32)
        ensures
            h == self@.height,
    {
        self.height
    }

    /// Number of pixels, `width * height`.
    pub fn pixel_count(&self) -> (n: usize)
        ensures
            n == self@.pixel_count(),
            self@.wf(),
    {
        proof {
            use_type_invariant(self);
        }
        self.data.len() / 3
    }

    /// The packed value of pixel number `k` in row-major order.
    pub fn packed_at(&self, k: usize) -> (p: u32)
        requires
            k < self@.pixel_count(),
        ensures
            p == self@.pixel(k as int),
            is_opaque(p),
    {
        let len: usize = self.data.len();
        proof {
            use_type_invariant(self);
            assert(len == 3 * self@.pixel_count());
        }
        let at: usize = 3 * k;
        pack_rgb(self.data[at], self.data[at + 1], self.data[at + 2])
    }
}

/// A decoded image as the converter receives it.
#[derive(Debug)]
pub enum DecodedImage {
    /// Three 8-bit channels per pixel.
    Rgb8(RgbRaster),
    /// Any other pixel format: grayscale, alpha, 16-bit or float channels.
    Other,
}

/// What a pixel buffer is: packed pixels in row-major order and the
/// dimensions they fill.
pub struct BufferView {
    pub pixels: Seq<u32>,
    pub width: nat,
    pub height: nat,
}

impl BufferView {
    /// One pixel per position, each of them opaque.
    pub open spec fn wf(self) -> bool {
        &&& self.pixels.len() == self.width * self.height
        &&& forall|k: int| 0 <= k < self.pixels.len() ==> is_opaque(#[trigger] self.pixels[k])
    }
}

/// The buffer that a raster converts to.
pub open spec fn converted(raster: RasterView) -> BufferView {
    BufferView { pixels: raster.pixels(), width: raster.width, height: raster.height }
}

/// The buffer of a well-formed raster is well-formed: `width * height`
/// pixels, each with the opaque alpha byte.
pub proof fn lemma_converted_wf(raster: RasterView)
    requires
        raster.wf(),
    ensures
        converted(raster).wf(),
        converted(raster).pixels.len() == raster.width * raster.height,
{
    let buffer = converted(raster);
    assert forall|k: int| 0 <= k < buffer.pixels.len() implies is_opaque(
        #[trigger] buffer.pixels[k],
    ) by {
        lemma_packed_channels(raster.data[3 * k], raster.data[3 * k + 1], raster.data[3 * k + 2]);
    }
}

/// A displayable image: packed pixels with their dimensions. Only the
/// converter makes one.
#[derive(Debug)]
pub struct PixelBuffer {
    pixels: Vec<u32>,
    width: usize,
    height: usize,
}

impl View for PixelBuffer {
    type V = BufferView;

    closed spec fn view(&self) -> BufferView {
        BufferView {
            pixels: self.pixels@,
            width: self.width as nat,
            height: self.height as nat,
        }
    }
}

impl PixelBuffer {
    #[verifier::type_invariant]
    pub open spec fn inv(&self) -> bool {
        self@.wf()
    }

    pub(crate) fn assemble(pixels: Vec<u32>, width: usize, height: usize) -> (b: PixelBuffer)
        requires
            (BufferView { pixels: pixels@, width: width as nat, height: height as nat }).wf(),
        ensures
            b@ == (BufferView { pixels: pixels@, width: width as nat, height: height as nat }),
    {
        PixelBuffer { pixels, width, height }
    }

    pub fn width(&self) -> (w: usize)
        ensures
            w == self@.width,
    {
        self.width
    }

    pub fn height(&self) -> (h: usize)
        ensures
            h == self@.height,
    {
        self.height
    }

    /// The packed pixels in row-major order, `width * height` of them.
    pub fn pixels(&self) -> (p: &Vec<u32>)
        ensures
            p@ == self@.pixels,
            self@.wf(),
    {
        proof {
            use_type_invariant(self);
        }
        &self.pixels
    }
}

} // verus!
