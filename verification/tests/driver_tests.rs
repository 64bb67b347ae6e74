use holo::driver::St7789Lcd;
use holo::frame::Bitmap;
use holo::protocol::{set_window, LcdOp};

fn red_bitmap(width: usize, height: usize) -> Bitmap {
    let mut data = Vec::new();
    for _ in 0..width * height {
        data.push(255u8);
        data.push(0u8);
        data.push(0u8);
    }
    Bitmap::from_raw(width, height, data).unwrap()
}

#[test]
fn window_params_for_240() {
    // 239 = width - 1 must travel as [0x00, 0x00, 0x00, 0xEF].
    let mut ops = Vec::new();
    set_window(&mut ops, 0, 0, 239, 239);
    let expected = vec![
        LcdOp::Command(0x2A),
        LcdOp::Data(0x00),
        LcdOp::Data(0x00),
        LcdOp::Data(0x00),
        LcdOp::Data(0xEF),
        LcdOp::Command(0x2B),
        LcdOp::Data(0x00),
        LcdOp::Data(0x00),
        LcdOp::Data(0x00),
        LcdOp::Data(0xEF),
    ];
    assert_eq!(ops, expected);
}

#[test]
fn window_params_split_high_byte() {
    let mut ops = Vec::new();
    set_window(&mut ops, 0, 0, 319, 479);
    assert_eq!(ops[3], LcdOp::Data(0x01)); // 319 = 0x013F
    assert_eq!(ops[4], LcdOp::Data(0x3F));
    assert_eq!(ops[8], LcdOp::Data(0x01)); // 479 = 0x01DF
    assert_eq!(ops[9], LcdOp::Data(0xDF));
}

#[test]
fn init_transcript_shape() {
    let mut lcd = St7789Lcd::new(240, 240);
    let ops = lcd.init();
    // Reset preamble with its settle delays.
    assert_eq!(ops[0], LcdOp::ResetLow);
    assert_eq!(ops[1], LcdOp::DelayMs(100));
    assert_eq!(ops[2], LcdOp::ResetHigh);
    assert_eq!(ops[3], LcdOp::DelayMs(100));
    // First register write: memory data access control.
    assert_eq!(ops[4], LcdOp::Command(0x36));
    assert_eq!(ops[5], LcdOp::Data(0x00));
    // Power-up tail: sleep out, >= 120 ms, display on, backlight.
    let n = ops.len();
    assert_eq!(ops[n - 4], LcdOp::Command(0x11));
    assert_eq!(ops[n - 3], LcdOp::DelayMs(120));
    assert_eq!(ops[n - 2], LcdOp::Command(0x29));
    assert_eq!(ops[n - 1], LcdOp::BacklightOn);
    // 4 reset steps + 14 commands with 44 parameter bytes + 4 power-up steps.
    assert_eq!(n, 66);
}

#[test]
fn init_never_sends_data_before_command() {
    let mut lcd = St7789Lcd::new(240, 240);
    let ops = lcd.init();
    let mut seen_command = false;
    let mut commands = 0;
    for op in &ops {
        match op {
            LcdOp::Command(_) => {
                seen_command = true;
                commands += 1;
            }
            LcdOp::Data(_) => {
                // The data/command line goes low exactly once per command,
                // so a data byte may only follow some earlier command byte.
                assert!(seen_command);
            }
            _ => {}
        }
    }
    // 14 table commands plus sleep-out and display-on.
    assert_eq!(commands, 16);
}

#[test]
fn send_image_streams_row_major() {
    let mut lcd = St7789Lcd::new(2, 2);
    let _ = lcd.init();
    // Four distinct pixels, row-major: red, green, blue, white.
    let data = vec![255, 0, 0, 0, 255, 0, 0, 0, 255, 255, 255, 255];
    let img = Bitmap::from_raw(2, 2, data).unwrap();
    let ops = lcd.send_image(&img);
    // 10 windowing ops + memory write + 2 bytes for each of the 4 pixels.
    assert_eq!(ops.len(), 10 + 1 + 8);
    assert_eq!(ops[10], LcdOp::Command(0x2C));
    let words = [0xF800u16, 0x07E0, 0x001F, 0xFFFF];
    for (p, word) in words.iter().enumerate() {
        assert_eq!(ops[11 + 2 * p], LcdOp::Data((word >> 8) as u8));
        assert_eq!(ops[11 + 2 * p + 1], LcdOp::Data((word & 0xFF) as u8));
    }
}

#[test]
fn end_to_end_red_frame() {
    let mut lcd = St7789Lcd::new(240, 240);
    let init_ops = lcd.init();
    assert!(!init_ops.is_empty());
    let src = red_bitmap(100, 50);
    let ops = lcd.draw_image(&src);
    // Full repaint: window + memory write + 240 * 240 pixel words.
    assert_eq!(ops.len(), 11 + 2 * 240 * 240);
    for p in 0..240 * 240 {
        assert_eq!(ops[11 + 2 * p], LcdOp::Data(0xF8));
        assert_eq!(ops[11 + 2 * p + 1], LcdOp::Data(0x00));
    }
}

#[test]
fn retry_after_failed_transfer_repaints_fully() {
    let mut lcd = St7789Lcd::new(16, 16);
    let _ = lcd.init();
    let img = red_bitmap(16, 16);
    let first = lcd.send_image(&img);
    // Pretend the replay failed after a few bytes; the driver state is
    // untouched, so a retry must produce the identical, complete transcript.
    let replayed_prefix = &first[..5];
    assert_eq!(replayed_prefix.len(), 5);
    let second = lcd.send_image(&img);
    assert_eq!(first, second);
    assert_eq!(second.len(), 11 + 2 * 16 * 16);
    assert_eq!(second[0], LcdOp::Command(0x2A));
}
