//! Pixel codec: packing an 8-bit RGB triple into the panel's 16-bit RGB565
//! wire format, and splitting a packed word into the two bytes that travel
//! over the bus (high byte first).

use vstd::prelude::*;

verus! {

/// The packed RGB565 word for an 8-bit RGB triple: 5 bits of red on top,
/// 6 bits of green in the middle, 5 bits of blue at the bottom. Each channel
/// is quantized by a truncating right shift.
pub open spec fn rgb565_word(r: u8, g: u8, b: u8) -> u16 {
    (((r as u16) >> 3) << 11) | (((g as u16) >> 2) << 5) | ((b as u16) >> 3)
}

/// High byte of a packed pixel word.
pub open spec fn word_hi(w: u16) -> u8 {
    (w >> 8) as u8
}

/// Low byte of a packed pixel word.
pub open spec fn word_lo(w: u16) -> u8 {
    (w & 0xFF) as u8
}

/// Packs one 8-bit RGB triple into the 16-bit RGB565 wire word.
pub fn pack_rgb565(r: u8, g: u8, b: u8) -> (w: u16)
    ensures
        w == rgb565_word(r, g, b),
{
    (((r as u16) >> 3) << 11) | (((g as u16) >> 2) << 5) | ((b as u16) >> 3)
}

/// Splits a packed pixel word into (high byte, low byte), the order in which
/// the two bytes are streamed to the controller.
pub fn word_bytes(w: u16) -> (p: (u8, u8))
    ensures
        p.0 == word_hi(w),
        p.1 == word_lo(w),
{
    ((w >> 8) as u8, (w & 0xFF) as u8)
}

/// Every packed word is representable in 16 bits.
pub proof fn lemma_pack_in_range(r: u8, g: u8, b: u8)
    ensures
        rgb565_word(r, g, b) <= 0xFFFF,
{
}

/// Packing is insensitive to the low bits that the truncating shifts drop:
/// two triples agreeing on the top 5 bits of red, the top 6 bits of green and
/// the top 5 bits of blue pack to the same word.
pub proof fn lemma_pack_ignores_low_bits(r1: u8, g1: u8, b1: u8, r2: u8, g2: u8, b2: u8)
    requires
        r1 >> 3 == r2 >> 3,
        g1 >> 2 == g2 >> 2,
        b1 >> 3 == b2 >> 3,
    ensures
        rgb565_word(r1, g1, b1) == rgb565_word(r2, g2, b2),
{
    assert((r1 >> 3 == r2 >> 3 && g1 >> 2 == g2 >> 2 && b1 >> 3 == b2 >> 3) ==> (((r1 as u16)
        >> 3) << 11) | (((g1 as u16) >> 2) << 5) | ((b1 as u16) >> 3) == (((r2 as u16) >> 3) << 11)
        | (((g2 as u16) >> 2) << 5) | ((b2 as u16) >> 3)) by (bit_vector);
}

} // verus!
