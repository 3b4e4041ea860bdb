//! The pixel converter: a decoded RGB raster becomes a buffer of packed
//! pixels, filled band by band in parallel.

use crate::error::DecodeError;
use crate::pixel::{converted, lemma_converted_wf, DecodedImage, PixelBuffer, RgbRaster};
use rayon::iter::{IndexedParallelIterator, ParallelIterator};
use rayon::slice::ParallelSliceMut;
use vstd::arithmetic::div_mod::{
    lemma_fundamental_div_mod, lemma_fundamental_div_mod_converse, lemma_mod_pos_bound,
};
use vstd::prelude::*;

verus! {

/// Rows in each band when `height` rows are shared among `bands` workers:
/// `height / bands` rounded up. No workers counts as one.
pub open spec fn rows_per_band(height: nat, bands: nat) -> nat {
    let t: nat = if bands == 0 {
        1
    } else {
        bands
    };
    if height % t == 0 {
        height / t
    } else {
        height / t + 1
    }
}

/// `rows_per_band` is the least number of rows per band with which `bands`
/// bands cover all rows.
pub proof fn lemma_rows_per_band_is_ceiling(height: nat, bands: nat)
    requires
        bands >= 1,
    ensures
        rows_per_band(height, bands) * bands >= height,
        height > 0 ==> (rows_per_band(height, bands) - 1) * bands < height,
        height > 0 ==> 1 <= rows_per_band(height, bands) <= height,
        height == 0 ==> rows_per_band(height, bands) == 0,
{
    let h: int = height as int;
    let t: int = bands as int;
    lemma_fundamental_div_mod(h, t);
    lemma_mod_pos_bound(h, t);
    let q: int = h / t;
    let m: int = h % t;
    assert(h == t * q + m);
    assert(q * t == t * q) by (nonlinear_arith);
    assert((q + 1) * t == t * q + t) by (nonlinear_arith);
    assert((q - 1) * t == t * q - t) by (nonlinear_arith);
    assert(q >= 0) by (nonlinear_arith)
        requires
            h == t * q + m,
            0 <= m < t,
            h >= 0,
    ;
    if h > 0 {
        assert(q <= h) by (nonlinear_arith)
            requires
                h == t * q + m,
                m >= 0,
                t >= 1,
                q >= 0,
        ;
        if m != 0 {
            assert(q + 1 <= h) by (nonlinear_arith)
                requires
                    h == t * q + m,
                    m >= 1,
                    t >= 1,
                    q >= 0,
            ;
        } else {
            assert(q >= 1) by (nonlinear_arith)
                requires
                    h == t * q,
                    h > 0,
                    t >= 1,
            ;
        }
    }
}

/// Rows in each band: `height / bands` rounded up, with at least one band.
pub fn band_rows(height: usize, bands: usize) -> (rows: usize)
    ensures
        rows == rows_per_band(height as nat, bands as nat),
{
    let t: usize = if bands == 0 {
        1
    } else {
        bands
    };
    let whole: usize = height / t;
    if height % t == 0 {
        whole
    } else {
        proof {
            lemma_rows_per_band_is_ceiling(height as nat, t as nat);
        }
        whole + 1
    }
}

/// Bands are made of whole rows. With `rows` rows to a band and `width`
/// pixels to a row, the pixel in column `x` of row `y` lies in band
/// `y / rows`, so band `i` covers the rows from `i * rows` up to
/// `(i + 1) * rows`.
pub proof fn lemma_band_holds_whole_rows(width: nat, rows: nat, x: nat, y: nat)
    requires
        rows >= 1,
        x < width,
    ensures
        (y * width + x) / (rows * width) == y / rows,
{
    let w: int = width as int;
    let r: int = rows as int;
    let q: int = y as int / r;
    let m: int = y as int % r;
    lemma_fundamental_div_mod(y as int, r);
    lemma_mod_pos_bound(y as int, r);
    let rest: int = m * w + x;
    assert(0 <= rest < r * w) by (nonlinear_arith)
        requires
            0 <= m < r,
            0 <= x < w,
            rest == m * w + x,
    ;
    assert(y * w + x == q * (r * w) + rest) by (nonlinear_arith)
        requires
            y == r * q + m,
            rest == m * w + x,
    ;
    lemma_fundamental_div_mod_converse(y * w + x, r * w, q, rest);
}

/// Band number `index` of `pixels` cut into bands of `chunk` pixels: the
/// pixels from `index * chunk` up to the next band or the end.
pub open spec fn band_of(pixels: Seq<u32>, index: int, chunk: int) -> Seq<u32> {
    let start: int = index * chunk;
    let end: int = if start + chunk <= pixels.len() {
        start + chunk
    } else {
        pixels.len() as int
    };
    pixels.subrange(start, end)
}

/// Two pixel sequences of one length that agree band by band are equal,
/// whatever the band size.
pub proof fn lemma_bands_cover(a: Seq<u32>, b: Seq<u32>, chunk: int)
    requires
        chunk > 0,
        a.len() == b.len(),
        forall|i: int|
            0 <= i && i * chunk < a.len() ==> #[trigger] band_of(a, i, chunk) == band_of(
                b,
                i,
                chunk,
            ),
    ensures
        a == b,
{
    assert forall|k: int| 0 <= k < a.len() implies a[k] == b[k] by {
        let i: int = k / chunk;
        let j: int = k % chunk;
        lemma_fundamental_div_mod(k, chunk);
        lemma_mod_pos_bound(k, chunk);
        assert(i * chunk == chunk * i) by (nonlinear_arith);
        assert(i >= 0) by (nonlinear_arith)
            requires
                k == chunk * i + j,
                0 <= j < chunk,
                k >= 0,
        ;
        assert(band_of(a, i, chunk) == band_of(b, i, chunk));
        assert(band_of(a, i, chunk)[j] == a[k]);
        assert(band_of(b, i, chunk)[j] == b[k]);
    }
    assert(a =~= b);
}

/// Fills one band of the output: `band` receives the packed pixels of the
/// raster from pixel `index * chunk` on.
pub fn fill_band(raster: &RgbRaster, index: usize, chunk: usize, band: &mut [u32])
    requires
        index * chunk + old(band)@.len() <= raster@.pixel_count(),
    ensures
        final(band)@ == raster@.pixels().subrange(
            index * chunk,
            index * chunk + old(band)@.len(),
        ),
{
    let count: usize = raster.pixel_count();
    let len: usize = band.len();
    let start: usize = index * chunk;
    let mut j: usize = 0;
    while j < len
        invariant
            j <= len,
            len == band@.len(),
            start + len <= count,
            count == raster@.pixel_count(),
            forall|m: int| 0 <= m < j ==> band@[m] == raster@.pixel(start + m),
        decreases len - j,
    {
        let p: u32 = raster.packed_at(start + j);
        band[j] = p;
        j = j + 1;
    }
    assert(band@ =~= raster@.pixels().subrange(start as int, start + len));
}

/// Hands the bands of `out` to the pool of worker threads and waits for all
/// of them.
///
/// Calls rayon's `par_chunks_mut`, `enumerate` and `for_each`. rayon cuts the
/// slice into consecutive chunks of `chunk` elements, the last one as long as
/// what is left, numbers them from zero and runs the closure once on each
/// before it returns. The contract claims that every band then holds what
/// `fill_band` leaves in it, and that the length is unchanged.
#[verifier::external_body]
fn fill_bands(raster: &RgbRaster, chunk: usize, out: &mut Vec<u32>)
    requires
        chunk > 0,
        old(out)@.len() == raster@.pixel_count(),
    ensures
        final(out)@.len() == old(out)@.len(),
        forall|i: int|
            0 <= i && i * chunk < old(out)@.len() ==> #[trigger] band_of(
                final(out)@,
                i,
                chunk as int,
            ) == band_of(raster@.pixels(), i, chunk as int),
{
    out.par_chunks_mut(chunk).enumerate().for_each(|(i, band)| fill_band(raster, i, chunk, band));
}

/// Converts a raster into a pixel buffer of the same dimensions, the rows
/// shared among `bands` bands that are filled in parallel. The result is the
/// same for every number of bands.
pub fn convert(raster: &RgbRaster, bands: usize) -> (buffer: PixelBuffer)
    ensures
        buffer@ == converted(raster@),
        buffer@.wf(),
        buffer@.pixels.len() == raster@.width * raster@.height,
{
    let width: usize = raster.width() as usize;
    let height: usize = raster.height() as usize;
    let count: usize = raster.pixel_count();
    let mut pixels: Vec<u32> = vec![0u32; count];
    if count > 0 {
        let rows: usize = band_rows(height, bands);
        proof {
            let t: nat = if bands == 0 {
                1
            } else {
                bands as nat
            };
            lemma_rows_per_band_is_ceiling(height as nat, t);
            assert(height > 0 && width > 0) by (nonlinear_arith)
                requires
                    width * height > 0,
                    width >= 0,
                    height >= 0,
            ;
            assert(1 <= rows * width <= height * width) by (nonlinear_arith)
                requires
                    1 <= rows <= height,
                    width >= 1,
            ;
            assert(height * width == width * height) by (nonlinear_arith);
        }
        let chunk: usize = rows * width;
        fill_bands(raster, chunk, &mut pixels);
        proof {
            lemma_bands_cover(pixels@, raster@.pixels(), chunk as int);
        }
    }
    proof {
        lemma_converted_wf(raster@);
        assert(pixels@ =~= raster@.pixels());
    }
    PixelBuffer::assemble(pixels, width, height)
}

/// The pixel converter on any decoded image: it fails, with `RgbParse`, only
/// for an image that does not hold three 8-bit channels per pixel.
pub fn convert_decoded(image: &DecodedImage, bands: usize) -> (out: Result<
    PixelBuffer,
    DecodeError,
>)
    ensures
        match image {
            DecodedImage::Rgb8(raster) => out matches Ok(buffer) && buffer@ == converted(raster@)
                && buffer@.wf(),
            DecodedImage::Other => out == Err::<PixelBuffer, DecodeError>(DecodeError::RgbParse),
        },
{
    match image {
        DecodedImage::Rgb8(raster) => Ok(convert(raster, bands)),
        DecodedImage::Other => Err(DecodeError::RgbParse),
    }
}

} // verus!
