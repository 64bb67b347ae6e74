//! Bitmaps: plain 8-bit-per-channel RGB images in row-major order, and the
//! nearest-neighbor resize that fits an arbitrary source image to the panel's
//! fixed resolution.

use vstd::arithmetic::div_mod::{lemma_fundamental_div_mod_converse, lemma_multiply_divide_lt};
use vstd::arithmetic::mul::lemma_mul_inequality;
use vstd::prelude::*;

verus! {

/// A decoded image: `width * height` pixels, row-major from the top-left,
/// three bytes (red, green, blue) per pixel.
pub struct Bitmap {
    pub width: usize,
    pub height: usize,
    pub data: Vec<u8>,
}

impl Bitmap {
    /// Well-formedness: the byte buffer holds exactly three bytes per pixel.
    pub open spec fn wf(&self) -> bool {
        self.data@.len() == 3 * self.width * self.height
    }

    /// The (red, green, blue) triple of the pixel in column `x` of row `y`.
    pub open spec fn pixel(&self, x: int, y: int) -> (u8, u8, u8) {
        let base = 3 * (y * self.width + x);
        (self.data@[base], self.data@[base + 1], self.data@[base + 2])
    }

    /// Wraps a raw byte buffer as a bitmap; succeeds exactly when the buffer
    /// length is three bytes per pixel.
    pub fn from_raw(width: usize, height: usize, data: Vec<u8>) -> (r: Option<Bitmap>)
        ensures
            r is Some <==> data@.len() == 3 * width * height,
            r matches Some(b) ==> b.width == width && b.height == height && b.data@ == data@
                && b.wf(),
    {
        let n = data.len();
        match width.checked_mul(height) {
            Some(pixels) => match pixels.checked_mul(3) {
                Some(bytes) => {
                    proof {
                        assert(3 * width * height == pixels * 3) by (nonlinear_arith)
                            requires
                                pixels == width * height,
                        ;
                    }
                    if data.len() == bytes {
                        Some(Bitmap { width, height, data })
                    } else {
                        None
                    }
                },
                None => {
                    proof {
                        assert(3 * width * height == pixels * 3) by (nonlinear_arith)
                            requires
                                pixels == width * height,
                        ;
                    }
                    None
                },
            },
            None => {
                proof {
                    assert(n < 3 * width * height) by (nonlinear_arith)
                        requires
                            width * height > usize::MAX,
                            n <= usize::MAX,
                    ;
                }
                None
            },
        }
    }
}

/// The row-major byte buffer of `src` resized to `w` by `h` pixels with
/// nearest-neighbor sampling: the output pixel in column `x` of row `y` is
/// the source pixel in column `x * src.width / w` of row `y * src.height / h`.
pub open spec fn resize_data(src: Bitmap, w: int, h: int) -> Seq<u8> {
    Seq::new(
        (3 * w * h) as nat,
        |i: int|
            {
                let p = i / 3;
                let c = i % 3;
                let x = p % w;
                let y = p / w;
                let sx = x * src.width / w;
                let sy = y * src.height / h;
                src.data@[3 * (sy * src.width + sx) + c]
            },
    )
}

/// Index arithmetic behind `resize_data`: byte `3 * (y * w + x) + c` of the
/// resized buffer is channel `c` of the sampled source pixel.
proof fn lemma_resize_data_index(src: Bitmap, w: int, h: int, x: int, y: int, c: int)
    requires
        0 < w,
        0 < h,
        0 <= x < w,
        0 <= y < h,
        0 <= c < 3,
    ensures
        0 <= 3 * (y * w + x) + c < 3 * w * h,
        resize_data(src, w, h)[3 * (y * w + x) + c] == src.data@[3 * ((y * src.height / h)
            * src.width + x * src.width / w) + c],
{
    let p = y * w + x;
    let i = 3 * p + c;
    assert(0 <= p < w * h && 0 <= i < 3 * w * h) by (nonlinear_arith)
        requires
            0 <= x < w,
            0 <= y < h,
            0 <= c < 3,
            p == y * w + x,
            i == 3 * p + c,
    ;
    lemma_fundamental_div_mod_converse(i, 3, p, c);
    lemma_fundamental_div_mod_converse(p, w, y, x);
}

/// Maps an output coordinate to the nearest source coordinate:
/// `i * src_dim / dst_dim`, computed without overflow.
fn scale_coord(i: usize, src_dim: usize, dst_dim: usize) -> (r: usize)
    requires
        i < dst_dim,
        0 < src_dim,
    ensures
        r == i as int * src_dim / dst_dim as int,
        r < src_dim,
{
    proof {
        assert((i as u128) * (src_dim as u128) <= 0xFFFF_FFFF_FFFF_FFFF_FFFF_FFFF_FFFF_FFFFu128)
            by (nonlinear_arith)
            requires
                i <= 0xFFFF_FFFF_FFFF_FFFFu128,
                src_dim <= 0xFFFF_FFFF_FFFF_FFFFu128,
        ;
        assert(i as int * src_dim < dst_dim as int * src_dim) by (nonlinear_arith)
            requires
                0 <= i < dst_dim,
                0 < src_dim,
        ;
        lemma_multiply_divide_lt(i as int * src_dim, dst_dim as int, src_dim as int);
    }
    ((i as u128) * (src_dim as u128) / (dst_dim as u128)) as usize
}

/// Resizes `src` to exactly `w` by `h` pixels with nearest-neighbor
/// sampling: no aspect-ratio preservation, no letterboxing.
pub fn resize_nearest(src: &Bitmap, w: usize, h: usize) -> (r: Bitmap)
    requires
        src.wf(),
        0 < src.width,
        0 < src.height,
        0 < w,
        0 < h,
        3 * w * h <= usize::MAX,
    ensures
        r.wf(),
        r.width == w,
        r.height == h,
        r.data@ == resize_data(*src, w as int, h as int),
{
    let ghost target = resize_data(*src, w as int, h as int);
    let src_len = src.data.len();
    let mut data: Vec<u8> = Vec::new();
    let mut y: usize = 0;
    while y < h
        invariant
            src.wf(),
            0 < src.width,
            0 < src.height,
            src_len == src.data@.len(),
            0 < w,
            0 < h,
            3 * w * h <= usize::MAX,
            y <= h,
            target == resize_data(*src, w as int, h as int),
            data@.len() == 3 * (y * w),
            forall|i: int| 0 <= i < data@.len() ==> data@[i] == target[i],
        decreases h - y,
    {
        let sy = scale_coord(y, src.height, h);
        let mut x: usize = 0;
        while x < w
            invariant
                src.wf(),
                0 < src.width,
                0 < src.height,
                src_len == src.data@.len(),
                0 < w,
                0 < h,
                3 * w * h <= usize::MAX,
                y < h,
                x <= w,
                sy == y as int * src.height / h as int,
                sy < src.height,
                target == resize_data(*src, w as int, h as int),
                data@.len() == 3 * (y * w + x),
                forall|i: int| 0 <= i < data@.len() ==> data@[i] == target[i],
            decreases w - x,
        {
            let sx = scale_coord(x, src.width, w);
            proof {
                assert(3 * (sy * src.width + sx) + 2 < 3 * src.width * src.height)
                    by (nonlinear_arith)
                    requires
                        0 <= sy < src.height,
                        0 <= sx < src.width,
                ;
            }
            let base = 3 * (sy * src.width + sx);
            proof {
                lemma_resize_data_index(*src, w as int, h as int, x as int, y as int, 0);
                lemma_resize_data_index(*src, w as int, h as int, x as int, y as int, 1);
                lemma_resize_data_index(*src, w as int, h as int, x as int, y as int, 2);
                assert(3 * (y * w + x) + 3 <= 3 * w * h) by (nonlinear_arith)
                    requires
                        0 <= x < w,
                        0 <= y < h,
                ;
            }
            data.push(src.data[base]);
            data.push(src.data[base + 1]);
            data.push(src.data[base + 2]);
            x = x + 1;
            proof {
                assert(3 * (y * w + x) == 3 * (y * w + (x - 1)) + 3) by (nonlinear_arith);
            }
        }
        y = y + 1;
        proof {
            assert(3 * (y * w) == 3 * ((y - 1) * w + w)) by (nonlinear_arith);
        }
    }
    proof {
        assert(3 * (h * w) == 3 * w * h) by (nonlinear_arith);
        assert(data@ =~= target);
    }
    Bitmap { width: w, height: h, data }
}

} // verus!
