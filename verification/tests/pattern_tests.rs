use holo::pattern::{gradient_bytes, gradient_word};

#[test]
fn gradient_corner_words() {
    // Top-left pixel: every channel ramps from zero.
    assert_eq!(gradient_word(0, 0, 240, 240), 0x0000);
    // Top-right pixel: red = 239 * 31 / 240 = 30, blue = 239 * 31 / 480 = 15.
    assert_eq!(gradient_word(239, 0, 240, 240), (30 << 11) | 15);
    // Bottom-left pixel: green = 239 * 63 / 240 = 62, blue = 15.
    assert_eq!(gradient_word(0, 239, 240, 240), (62 << 5) | 15);
}

#[test]
fn gradient_bytes_layout() {
    let bytes = gradient_bytes(240, 240);
    assert_eq!(bytes.len(), 2 * 240 * 240);
    // Pixel p = 239 is the end of the first row.
    let word = gradient_word(239, 0, 240, 240);
    assert_eq!(bytes[2 * 239], (word >> 8) as u8);
    assert_eq!(bytes[2 * 239 + 1], (word & 0xFF) as u8);
    // Pixel p = 240 starts the second row.
    let word2 = gradient_word(0, 1, 240, 240);
    assert_eq!(bytes[2 * 240], (word2 >> 8) as u8);
    assert_eq!(bytes[2 * 240 + 1], (word2 & 0xFF) as u8);
}
