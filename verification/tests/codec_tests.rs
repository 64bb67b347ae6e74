use holo::codec::{pack_rgb565, word_bytes};

#[test]
fn pack_pure_red() {
    // red = 255 >> 3 = 31, shifted to the top five bits: 31 << 11 = 0xF800
    assert_eq!(pack_rgb565(255, 0, 0), 0xF800);
}

#[test]
fn pack_pure_green() {
    // green = 255 >> 2 = 63, shifted to the middle six bits: 63 << 5 = 0x07E0
    assert_eq!(pack_rgb565(0, 255, 0), 0x07E0);
}

#[test]
fn pack_pure_blue() {
    assert_eq!(pack_rgb565(0, 0, 255), 0x001F);
}

#[test]
fn pack_black_and_white() {
    assert_eq!(pack_rgb565(0, 0, 0), 0x0000);
    assert_eq!(pack_rgb565(255, 255, 255), 0xFFFF);
}

#[test]
fn pack_matches_shift_formula() {
    for &(r, g, b) in &[(18u8, 52u8, 86u8), (1, 2, 3), (200, 100, 50), (255, 128, 7)] {
        let expected = (((r >> 3) as u16) << 11) | (((g >> 2) as u16) << 5) | ((b >> 3) as u16);
        assert_eq!(pack_rgb565(r, g, b), expected);
    }
}

#[test]
fn pack_drops_low_channel_bits() {
    // Triples differing only in the dropped low bits collide.
    assert_eq!(pack_rgb565(248, 252, 248), 0xFFFF);
    assert_eq!(pack_rgb565(255, 255, 255), pack_rgb565(248, 252, 248));
    assert_eq!(pack_rgb565(16, 32, 8), pack_rgb565(23, 35, 15));
}

#[test]
fn word_bytes_high_then_low() {
    assert_eq!(word_bytes(0xF800), (0xF8, 0x00));
    assert_eq!(word_bytes(0x07E0), (0x07, 0xE0));
    assert_eq!(word_bytes(0x1234), (0x12, 0x34));
}
