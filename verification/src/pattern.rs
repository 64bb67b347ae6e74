//! A built-in diagnostic gradient: the full-screen test frame that sweeps
//! red across the columns, green down the rows and blue along the diagonal,
//! already packed into the RGB565 wire bytes (high byte first, row-major).

use crate::codec::{word_hi, word_lo};
use vstd::arithmetic::div_mod::{lemma_fundamental_div_mod_converse, lemma_multiply_divide_lt};
use vstd::arithmetic::mul::lemma_mul_inequality;
use vstd::prelude::*;

verus! {

/// The packed gradient word for the pixel in column `x` of row `y` of a
/// `w` by `h` frame: red grows with the column, green with the row, blue
/// with their sum.
pub open spec fn gradient_word_spec(x: int, y: int, w: int, h: int) -> u16 {
    let r = ((x * 31) / w) as u16;
    let g = ((y * 63) / h) as u16;
    let b = (((x + y) * 31) / (w + h)) as u16;
    ((r & 0x1F) << 11) | ((g & 0x3F) << 5) | (b & 0x1F)
}

/// Computes one gradient pixel word.
pub fn gradient_word(x: usize, y: usize, w: usize, h: usize) -> (word: u16)
    requires
        x < w,
        y < h,
    ensures
        word == gradient_word_spec(x as int, y as int, w as int, h as int),
{
    proof {
        lemma_multiply_divide_lt(x as int * 31, w as int, 31);
        lemma_multiply_divide_lt(y as int * 63, h as int, 63);
        lemma_multiply_divide_lt((x + y) as int * 31, w as int + h, 31);
        assert(x as int * 31 < w as int * 31 && y as int * 63 < h as int * 63 && (x + y) as int
            * 31 < (w as int + h) * 31) by (nonlinear_arith)
            requires
                0 <= x < w,
                0 <= y < h,
        ;
    }
    let r = ((x as u128 * 31) / (w as u128)) as u16;
    let g = ((y as u128 * 63) / (h as u128)) as u16;
    let b = (((x as u128 + y as u128) * 31) / (w as u128 + h as u128)) as u16;
    ((r & 0x1F) << 11) | ((g & 0x3F) << 5) | (b & 0x1F)
}

/// Builds the byte stream of the whole gradient frame: two bytes per pixel,
/// high byte first, pixels row-major from the top-left. Streamed after a
/// full-panel window and a memory-write command it paints the test pattern.
pub fn gradient_bytes(w: usize, h: usize) -> (bytes: Vec<u8>)
    requires
        0 < w,
        0 < h,
        2 * w * h <= usize::MAX,
    ensures
        bytes@.len() == 2 * w * h,
        forall|p: int| #![trigger bytes@[2 * p]]
            0 <= p < w * h ==> bytes@[2 * p] == word_hi(
                gradient_word_spec(p % (w as int), p / (w as int), w as int, h as int),
            ) && bytes@[2 * p + 1] == word_lo(gradient_word_spec(p % (w as int), p / (w as int), w as int, h as int)),
{
    let mut bytes: Vec<u8> = Vec::new();
    let mut y: usize = 0;
    while y < h
        invariant
            0 < w,
            0 < h,
            2 * w * h <= usize::MAX,
            y <= h,
            bytes@.len() == 2 * (y * w),
            forall|p: int| #![trigger bytes@[2 * p]]
                0 <= p < y * w ==> bytes@[2 * p] == word_hi(
                    gradient_word_spec(p % (w as int), p / (w as int), w as int, h as int),
                ) && bytes@[2 * p + 1] == word_lo(
                    gradient_word_spec(p % (w as int), p / (w as int), w as int, h as int),
                ),
        decreases h - y,
    {
        let mut x: usize = 0;
        while x < w
            invariant
                0 < w,
                0 < h,
                2 * w * h <= usize::MAX,
                y < h,
                x <= w,
                bytes@.len() == 2 * (y * w + x),
                forall|p: int| #![trigger bytes@[2 * p]]
                    0 <= p < y * w + x ==> bytes@[2 * p] == word_hi(
                        gradient_word_spec(p % (w as int), p / (w as int), w as int, h as int),
                    ) && bytes@[2 * p + 1] == word_lo(
                        gradient_word_spec(p % (w as int), p / (w as int), w as int, h as int),
                    ),
            decreases w - x,
        {
            proof {
                lemma_mul_inequality(y as int, h - 1, w as int);
                assert(y * w + x < w * h && 2 * (y * w + x) + 2 <= 2 * w * h) by (nonlinear_arith)
                    requires
                        0 <= x < w,
                        0 <= y <= h - 1,
                        y as int * w <= (h - 1) * w,
                ;
            }
            let word = gradient_word(x, y, w, h);
            let pair = crate::codec::word_bytes(word);
            bytes.push(pair.0);
            bytes.push(pair.1);
            proof {
                lemma_fundamental_div_mod_converse((y * w + x) as int, w as int, y as int, x as int);
            }
            x = x + 1;
        }
        y = y + 1;
        proof {
            assert(2 * (y * w) == 2 * ((y - 1) * w + w)) by (nonlinear_arith);
        }
    }
    proof {
        assert(2 * (h * w) == 2 * w * h) by (nonlinear_arith);
    }
    bytes
}

} // verus!
