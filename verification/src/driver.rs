//! The ST7789 panel driver.
//!
//! The driver owns the panel's fixed dimensions and its place in the
//! initialization state machine, and turns bring-up and frame writes into
//! [`LcdOp`] transcripts. An unverified executor owns the physical
//! data/command, reset and backlight lines and the serial bus, and replays
//! each transcript onto them in order; a transfer failure there aborts the
//! replay and the caller may retry with a fresh transcript.

use crate::codec::{rgb565_word, word_hi, word_lo};
use crate::frame::{resize_data, Bitmap};
use crate::protocol::{
    bus_bytes, push_command, push_reg_write, reg_write_ops, set_window, table_ops, table_trace,
    window_ops_spec, LcdOp,
};
use vstd::arithmetic::div_mod::lemma_fundamental_div_mod_converse;
use vstd::arithmetic::mul::lemma_mul_inequality;
use vstd::prelude::*;

verus! {

/// Where the panel stands in its bring-up sequence. The reset, configuration
/// and power-up stages all happen inside the single `init` call, so only the
/// endpoints are ever observable between calls.
#[derive(Clone, Copy, Debug, PartialEq, Eq, Structural)]
pub enum PanelState {
    /// Constructed, not yet brought up; writing frames is not allowed.
    Uninitialized,
    /// Bring-up finished, display on; frames may be written repeatedly.
    Active,
}

/// Driver for one ST7789-controlled panel: fixed dimensions plus the
/// bring-up state. The hardware handles stay with the unverified executor.
pub struct St7789Lcd {
    width: u16,
    height: u16,
    state: PanelState,
}

/// The ST7789 bring-up register table: memory data access control,
/// interface pixel format (16-bit), porch, gate, VCOM, LCM and power
/// settings, both gamma curves, and display inversion, byte for byte.
pub open spec fn st7789_table_spec() -> Seq<(u8, Seq<u8>)> {
    seq![
        (0x36u8, seq![0x00u8]),  // Memory Data Access Control: rotation, RGB order
        (0x3Au8, seq![0x55u8]),  // Interface Pixel Format: 16-bit color
        (0xB2u8, seq![0x0Cu8, 0x0C, 0x00, 0x33, 0x33]),  // Porch Setting
        (0xB7u8, seq![0x35u8]),  // Gate Control
        (0xBBu8, seq![0x19u8]),  // VCOM Setting
        (0xC0u8, seq![0x2Cu8]),  // LCM Control
        (0xC2u8, seq![0x01u8]),  // VDV and VRH Command Enable
        (0xC3u8, seq![0x12u8]),  // VRH Set
        (0xC4u8, seq![0x20u8]),  // VDV Set
        (0xC6u8, seq![0x0Fu8]),  // Frame Rate Control in Normal Mode
        (0xD0u8, seq![0xA4u8, 0xA1]),  // Power Control
        (
            0xE0u8,
            seq![0xD0u8, 0x04, 0x0D, 0x11, 0x13, 0x2B, 0x3F, 0x54, 0x4C, 0x18, 0x0D, 0x0B, 0x1F, 0x23],
        ),  // Positive Voltage Gamma Control
        (
            0xE1u8,
            seq![0xD0u8, 0x04, 0x0C, 0x11, 0x13, 0x2C, 0x3F, 0x44, 0x51, 0x2F, 0x1F, 0x1F, 0x20, 0x23],
        ),  // Negative Voltage Gamma Control
        (0x21u8, Seq::<u8>::empty()),  // Display Inversion On
    ]
}

/// The hardware reset preamble: reset line low, settle, high, settle. The
/// panel's analog reset circuitry needs at least 100 ms on each level.
pub open spec fn reset_ops_spec() -> Seq<LcdOp> {
    seq![LcdOp::ResetLow, LcdOp::DelayMs(100), LcdOp::ResetHigh, LcdOp::DelayMs(100)]
}

/// The power-up tail: sleep out (0x11), at least 120 ms for the panel's
/// internal supplies, display on (0x29), then backlight.
pub open spec fn power_up_ops_spec() -> Seq<LcdOp> {
    seq![LcdOp::Command(0x11), LcdOp::DelayMs(120), LcdOp::Command(0x29), LcdOp::BacklightOn]
}

/// The complete initialization transcript: reset, the bring-up register
/// table, then power-up.
pub open spec fn init_ops_spec() -> Seq<LcdOp> {
    reset_ops_spec() + table_ops(st7789_table_spec()) + power_up_ops_spec()
}

/// `init_ops_spec` spelled out register write by register write; the shape
/// the emitting code follows.
pub open spec fn init_ops_flat() -> Seq<LcdOp> {
    reset_ops_spec() + reg_write_ops(0x36, seq![0x00u8]) + reg_write_ops(0x3A, seq![0x55u8])
        + reg_write_ops(0xB2, seq![0x0Cu8, 0x0C, 0x00, 0x33, 0x33]) + reg_write_ops(
        0xB7,
        seq![0x35u8],
    ) + reg_write_ops(0xBB, seq![0x19u8]) + reg_write_ops(0xC0, seq![0x2Cu8]) + reg_write_ops(
        0xC2,
        seq![0x01u8],
    ) + reg_write_ops(0xC3, seq![0x12u8]) + reg_write_ops(0xC4, seq![0x20u8]) + reg_write_ops(
        0xC6,
        seq![0x0Fu8],
    ) + reg_write_ops(0xD0, seq![0xA4u8, 0xA1]) + reg_write_ops(
        0xE0,
        seq![0xD0u8, 0x04, 0x0D, 0x11, 0x13, 0x2B, 0x3F, 0x54, 0x4C, 0x18, 0x0D, 0x0B, 0x1F, 0x23],
    ) + reg_write_ops(
        0xE1,
        seq![0xD0u8, 0x04, 0x0C, 0x11, 0x13, 0x2C, 0x3F, 0x44, 0x51, 0x2F, 0x1F, 0x1F, 0x20, 0x23],
    ) + reg_write_ops(0x21, Seq::<u8>::empty()) + power_up_ops_spec()
}

/// The two spellings of the initialization transcript agree.
pub proof fn lemma_init_ops_flat()
    ensures
        init_ops_spec() == init_ops_flat(),
{
    reveal_with_fuel(table_ops, 16);
    assert(init_ops_spec() =~= init_ops_flat());
}

/// The 16-bit pixel word for pixel `p` (row-major) of a packed RGB buffer.
pub open spec fn pixel_word_at(data: Seq<u8>, p: int) -> u16 {
    rgb565_word(data[3 * p], data[3 * p + 1], data[3 * p + 2])
}

/// The pixel-streaming tail of a frame write: every pixel of the buffer in
/// order, each as two data bytes, high byte first.
pub open spec fn pixel_ops(data: Seq<u8>) -> Seq<LcdOp> {
    Seq::new(
        2 * (data.len() / 3),
        |k: int|
            if k % 2 == 0 {
                LcdOp::Data(word_hi(pixel_word_at(data, k / 2)))
            } else {
                LcdOp::Data(word_lo(pixel_word_at(data, k / 2)))
            },
    )
}

/// The full transcript of one frame write to a `w` by `h` panel: window the
/// whole panel from (0, 0), arm the memory write (0x2C), then stream every
/// pixel word of the buffer.
pub open spec fn frame_ops_spec(w: u16, h: u16, data: Seq<u8>) -> Seq<LcdOp> {
    window_ops_spec(0, 0, (w - 1) as u16, (h - 1) as u16) + seq![LcdOp::Command(0x2C)]
        + pixel_ops(data)
}

impl St7789Lcd {
    /// The panel's fixed pixel width.
    pub closed spec fn width(&self) -> u16 {
        self.width
    }

    /// The panel's fixed pixel height.
    pub closed spec fn height(&self) -> u16 {
        self.height
    }

    /// Where the panel stands in its bring-up sequence.
    pub closed spec fn state(&self) -> PanelState {
        self.state
    }

    /// Panel invariant: both dimensions are positive, and a full frame
    /// buffer for them fits in memory.
    pub open spec fn wf(&self) -> bool {
        &&& 0 < self.width()
        &&& 0 < self.height()
        &&& 3 * self.width() * self.height() <= usize::MAX
    }

    /// Creates a driver for a panel of the given fixed dimensions. The
    /// caller keeps the hardware lines and bus; the driver only decides what
    /// must happen on them.
    pub fn new(width: u16, height: u16) -> (lcd: St7789Lcd)
        requires
            0 < width,
            0 < height,
            3 * width * height <= usize::MAX,
        ensures
            lcd.wf(),
            lcd.width() == width,
            lcd.height() == height,
            lcd.state() is Uninitialized,
    {
        St7789Lcd { width, height, state: PanelState::Uninitialized }
    }

    /// Brings the panel up, exactly once per driver: hardware reset with its
    /// settle delays, the ST7789 register table, sleep-out with its power-up
    /// delay, display on, backlight on. Returns the transcript to replay.
    pub fn init(&mut self) -> (ops: Vec<LcdOp>)
        requires
            old(self).wf(),
            old(self).state() is Uninitialized,
        ensures
            final(self).wf(),
            final(self).width() == old(self).width(),
            final(self).height() == old(self).height(),
            final(self).state() is Active,
            ops@ == init_ops_spec(),
    {
        let mut ops: Vec<LcdOp> = Vec::new();
        ops.push(LcdOp::ResetLow);
        ops.push(LcdOp::DelayMs(100));
        ops.push(LcdOp::ResetHigh);
        ops.push(LcdOp::DelayMs(100));
        push_reg_write(&mut ops, 0x36, &[0x00]);  // Memory Data Access Control
        push_reg_write(&mut ops, 0x3A, &[0x55]);  // Interface Pixel Format: 16-bit
        push_reg_write(&mut ops, 0xB2, &[0x0C, 0x0C, 0x00, 0x33, 0x33]);  // Porch Setting
        push_reg_write(&mut ops, 0xB7, &[0x35]);  // Gate Control
        push_reg_write(&mut ops, 0xBB, &[0x19]);  // VCOM Setting
        push_reg_write(&mut ops, 0xC0, &[0x2C]);  // LCM Control
        push_reg_write(&mut ops, 0xC2, &[0x01]);  // VDV and VRH Command Enable
        push_reg_write(&mut ops, 0xC3, &[0x12]);  // VRH Set
        push_reg_write(&mut ops, 0xC4, &[0x20]);  // VDV Set
        push_reg_write(&mut ops, 0xC6, &[0x0F]);  // Frame Rate Control
        push_reg_write(&mut ops, 0xD0, &[0xA4, 0xA1]);  // Power Control
        push_reg_write(
            &mut ops,
            0xE0,  // Positive Voltage Gamma Control
            &[0xD0, 0x04, 0x0D, 0x11, 0x13, 0x2B, 0x3F, 0x54, 0x4C, 0x18, 0x0D, 0x0B, 0x1F, 0x23],
        );
        push_reg_write(
            &mut ops,
            0xE1,  // Negative Voltage Gamma Control
            &[0xD0, 0x04, 0x0C, 0x11, 0x13, 0x2C, 0x3F, 0x44, 0x51, 0x2F, 0x1F, 0x1F, 0x20, 0x23],
        );
        push_reg_write(&mut ops, 0x21, &[]);  // Display Inversion On
        push_command(&mut ops, 0x11);  // Sleep Out
        ops.push(LcdOp::DelayMs(120));
        push_command(&mut ops, 0x29);  // Display On
        ops.push(LcdOp::BacklightOn);
        self.state = PanelState::Active;
        proof {
            lemma_init_ops_flat();
            assert(ops@ =~= init_ops_flat());
        }
        ops
    }

    /// Writes one already-sized frame: sets the address window to the whole
    /// panel, arms the memory write, and streams every pixel word row-major
    /// from the top-left. The driver itself is left unchanged, so after a
    /// failed replay a retry emits the identical, complete transcript.
    #[verifier::rlimit(60)]
    pub fn send_image(&mut self, img: &Bitmap) -> (ops: Vec<LcdOp>)
        requires
            old(self).wf(),
            old(self).state() is Active,
            img.wf(),
            img.width == old(self).width(),
            img.height == old(self).height(),
        ensures
            *final(self) == *old(self),
            ops@ == frame_ops_spec(old(self).width(), old(self).height(), img.data@),
    {
        let ghost data = img.data@;
        let mut ops: Vec<LcdOp> = Vec::new();
        set_window(&mut ops, 0, 0, self.width - 1, self.height - 1);
        push_command(&mut ops, 0x2C);  // Memory Write
        let ghost header = window_ops_spec(
            0,
            0,
            (self.width - 1) as u16,
            (self.height - 1) as u16,
        ) + seq![LcdOp::Command(0x2C)];
        let w = self.width as usize;
        let h = self.height as usize;
        proof {
            assert(w * h <= 3 * w * h && 3 * (w * h) == 3 * w * h) by (nonlinear_arith)
                requires
                    0 <= w,
                    0 <= h,
            ;
        }
        let total = w * h;
        let mut p: usize = 0;
        while p < total
            invariant
                img.wf(),
                data == img.data@,
                img.width == w,
                img.height == h,
                total == w * h,
                3 * total == data.len(),
                3 * total <= usize::MAX,
                p <= total,
                ops@ == header + pixel_ops(data.take(3 * p as int)),
            decreases total - p,
        {
            let base = 3 * p;
            let word = crate::codec::pack_rgb565(img.data[base], img.data[base + 1], img.data[base
                + 2]);
            let bytes = crate::codec::word_bytes(word);
            ops.push(LcdOp::Data(bytes.0));
            ops.push(LcdOp::Data(bytes.1));
            proof {
                lemma_pixel_ops_extend(data, p as int);
                assert(ops@ =~= header + pixel_ops(data.take(3 * (p as int + 1))));
            }
            p = p + 1;
        }
        proof {
            assert(data.take(3 * total as int) =~= data);
        }
        ops
    }

    /// Fully repaints the panel from an arbitrary-resolution bitmap: resizes
    /// it to the panel's dimensions with nearest-neighbor sampling, then
    /// streams it like `send_image`.
    pub fn draw_image(&mut self, img: &Bitmap) -> (ops: Vec<LcdOp>)
        requires
            old(self).wf(),
            old(self).state() is Active,
            img.wf(),
            0 < img.width,
            0 < img.height,
        ensures
            *final(self) == *old(self),
            ops@ == frame_ops_spec(
                old(self).width(),
                old(self).height(),
                resize_data(*img, old(self).width() as int, old(self).height() as int),
            ),
    {
        let w = self.width as usize;
        let h = self.height as usize;
        let frame = crate::frame::resize_nearest(img, w, h);
        self.send_image(&frame)
    }
}

/// Streaming one more pixel extends the pixel ops by exactly its two data
/// bytes.
proof fn lemma_pixel_ops_extend(data: Seq<u8>, p: int)
    requires
        0 <= p,
        3 * p + 3 <= data.len(),
    ensures
        pixel_ops(data.take(3 * p + 3)) == pixel_ops(data.take(3 * p)).push(
            LcdOp::Data(word_hi(pixel_word_at(data, p))),
        ).push(LcdOp::Data(word_lo(pixel_word_at(data, p)))),
{
    let small = data.take(3 * p);
    let big = data.take(3 * p + 3);
    assert((3 * p) / 3 == p && (3 * p + 3) / 3 == p + 1) by {
        lemma_fundamental_div_mod_converse(3 * p, 3, p, 0);
        lemma_fundamental_div_mod_converse(3 * p + 3, 3, p + 1, 0);
    }
    assert forall|k: int| 0 <= k < 2 * (p + 1) implies pixel_ops(big)[k] == pixel_ops(small).push(
        LcdOp::Data(word_hi(pixel_word_at(data, p))),
    ).push(LcdOp::Data(word_lo(pixel_word_at(data, p))))[k] by {
        lemma_fundamental_div_mod_converse(2 * p, 2, p, 0);
        lemma_fundamental_div_mod_converse(2 * p + 1, 2, p, 1);
        if k < 2 * p {
            assert(0 <= k / 2 < p);
            assert(3 * (k / 2) + 2 < 3 * p);
            assert(pixel_word_at(big, k / 2) == pixel_word_at(small, k / 2));
        } else {
            assert(k / 2 == p);
            assert(pixel_word_at(big, p) == pixel_word_at(data, p));
        }
    }
    assert(pixel_ops(big) =~= pixel_ops(small).push(
        LcdOp::Data(word_hi(pixel_word_at(data, p))),
    ).push(LcdOp::Data(word_lo(pixel_word_at(data, p)))));
}

/// Law: a frame write streams exactly `w * h` pixel words, row-major from
/// the top-left. After the ten windowing ops and the memory-write command,
/// the transcript holds two data bytes per pixel, and the word for the pixel
/// in column `x` of row `y` stands at word index `y * w + x`, high byte
/// first.
pub proof fn lemma_frame_stream_row_major(w: u16, h: u16, img: Bitmap)
    requires
        img.wf(),
        img.width == w,
        img.height == h,
    ensures
        frame_ops_spec(w, h, img.data@).len() == 11 + 2 * (w * h),
        forall|x: int, y: int| #![trigger img.pixel(x, y)]
            0 <= x < w && 0 <= y < h ==> {
                let word = rgb565_word(
                    img.pixel(x, y).0,
                    img.pixel(x, y).1,
                    img.pixel(x, y).2,
                );
                frame_ops_spec(w, h, img.data@)[11 + 2 * (y * w + x)] == LcdOp::Data(
                    word_hi(word),
                ) && frame_ops_spec(w, h, img.data@)[11 + 2 * (y * w + x) + 1] == LcdOp::Data(
                    word_lo(word),
                )
            },
{
    let data = img.data@;
    let ops = frame_ops_spec(w, h, img.data@);
    assert(data.len() / 3 == w * h) by {
        lemma_fundamental_div_mod_converse(3 * (w * h), 3, w * h, 0);
        assert(3 * img.width * img.height == 3 * (w * h)) by (nonlinear_arith)
            requires
                img.width == w,
                img.height == h,
        ;
    }
    assert forall|x: int, y: int| #![trigger img.pixel(x, y)] 0 <= x < w && 0 <= y < h implies {
        let word = rgb565_word(img.pixel(x, y).0, img.pixel(x, y).1, img.pixel(x, y).2);
        ops[11 + 2 * (y * w + x)] == LcdOp::Data(word_hi(word)) && ops[11 + 2 * (y * w + x) + 1]
            == LcdOp::Data(word_lo(word))
    } by {
        let p = y * w + x;
        lemma_mul_inequality(y, h - 1, w as int);
        assert(0 <= p < w * h) by (nonlinear_arith)
            requires
                0 <= x < w,
                0 <= y <= h - 1,
                p == y * w + x,
                y * w <= (h - 1) * w,
        ;
        lemma_fundamental_div_mod_converse(2 * p, 2, p, 0);
        lemma_fundamental_div_mod_converse(2 * p + 1, 2, p, 1);
        assert(pixel_ops(data)[2 * p] == LcdOp::Data(word_hi(pixel_word_at(data, p))));
        assert(pixel_ops(data)[2 * p + 1] == LcdOp::Data(word_lo(pixel_word_at(data, p))));
        assert(pixel_word_at(data, p) == rgb565_word(
            img.pixel(x, y).0,
            img.pixel(x, y).1,
            img.pixel(x, y).2,
        ));
        assert(ops[11 + 2 * p] == pixel_ops(data)[2 * p]);
        assert(ops[11 + 2 * p + 1] == pixel_ops(data)[2 * p + 1]);
    }
}

/// Law: the initialization transcript keeps the command/data discipline.
/// Its bus trace is the register table's trace — for every register write
/// the data/command line is low for exactly the one command byte and high
/// for every following parameter byte until the next command — followed by
/// the two bare power-up commands; and no data byte ever crosses the bus
/// before a command byte has.
pub proof fn lemma_init_byte_discipline()
    ensures
        bus_bytes(init_ops_spec()) == table_trace(st7789_table_spec()) + seq![
            (false, 0x11u8),
            (false, 0x29u8),
        ],
        forall|i: int|
            0 <= i < bus_bytes(init_ops_spec()).len() && bus_bytes(init_ops_spec())[i].0
                ==> exists|j: int|
                0 <= j < i && !bus_bytes(init_ops_spec())[j].0,
{
    let t = st7789_table_spec();
    crate::protocol::lemma_bus_bytes_concat(reset_ops_spec() + table_ops(t), power_up_ops_spec());
    crate::protocol::lemma_bus_bytes_concat(reset_ops_spec(), table_ops(t));
    assert(bus_bytes(reset_ops_spec()) =~= Seq::<(bool, u8)>::empty()) by {
        reveal_with_fuel(bus_bytes, 6);
        assert(reset_ops_spec().drop_first().drop_first().drop_first().drop_first()
            =~= Seq::<LcdOp>::empty());
    }
    assert(bus_bytes(power_up_ops_spec()) =~= seq![(false, 0x11u8), (false, 0x29u8)]) by {
        reveal_with_fuel(bus_bytes, 6);
        assert(power_up_ops_spec().drop_first().drop_first().drop_first().drop_first()
            =~= Seq::<LcdOp>::empty());
    }
    crate::protocol::lemma_table_trace(t);
    assert(init_ops_spec() =~= (reset_ops_spec() + table_ops(t)) + power_up_ops_spec());
    let trace = bus_bytes(init_ops_spec());
    assert(trace =~= table_trace(t) + seq![(false, 0x11u8), (false, 0x29u8)]);
    assert(!trace[0].0) by {
        reveal_with_fuel(crate::protocol::table_trace, 2);
    }
    assert forall|i: int| 0 <= i < trace.len() && trace[i].0 implies exists|j: int|
        0 <= j < i && !trace[j].0 by {
        assert(!trace[0].0);
    }
}

} // verus!
