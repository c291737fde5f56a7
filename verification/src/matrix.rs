//! The shift-register protocol driver. It turns images into the exact
//! sequence of output-pin transitions that drives two daisy-chained LED
//! driver chips: serial data and clock pulses, a latch pulse to commit a
//! row, a blank line for bank programming, a reset line, and one select
//! line per physical row.
//!
//! The driver records the transitions it would perform as a trace of
//! `PinEvent`s; the environment replays the trace onto real pins.

use crate::color::spec_gamma;
use crate::color::Color;
use crate::image::Image;
use vstd::prelude::*;

verus! {

/// One output line of the driver.
#[derive(Clone, Copy, PartialEq, Eq, Structural, Debug)]
pub enum Line {
    /// Blank / bank-select line (active low for bank programming).
    Sb,
    /// Latch line; a brief low pulse commits the shifted bits.
    Lat,
    /// Reset line.
    Rst,
    /// Serial clock; data is taken on a brief high pulse.
    Sck,
    /// Serial data.
    Sda,
    /// Row-select line for one of the 8 physical rows.
    RowSel(u8),
}

/// One step of the protocol: a line driven to a level, or a fixed settle
/// delay in milliseconds.
#[derive(Clone, Copy, PartialEq, Eq, Structural, Debug)]
pub enum PinEvent {
    Level { line: Line, high: bool },
    Settle { ms: u32 },
}

/// A single level transition.
pub open spec fn lvl(line: Line, high: bool) -> PinEvent {
    PinEvent::Level { line, high }
}

/// A brief high pulse of the serial clock.
pub open spec fn sck_pulse() -> Seq<PinEvent> {
    seq![lvl(Line::Sck, true), lvl(Line::Sck, false)]
}

/// A brief low pulse of the latch line.
pub open spec fn lat_pulse() -> Seq<PinEvent> {
    seq![lvl(Line::Lat, false), lvl(Line::Lat, true)]
}

/// Bit `k` of a byte in emission order: most significant bit first.
pub open spec fn spec_bit(b: u8, k: int) -> bool {
    ((b as u32) >> ((7 - k) as u32)) & 1 == 1
}

/// Emitting one bit: drive the data line, then pulse the clock.
pub open spec fn bit_events(bit: bool) -> Seq<PinEvent> {
    seq![lvl(Line::Sda, bit)] + sck_pulse()
}

/// The first `k` bits of a byte, most significant first.
pub open spec fn byte_prefix(b: u8, k: int) -> Seq<PinEvent>
    decreases k,
{
    if k <= 0 {
        Seq::empty()
    } else {
        byte_prefix(b, k - 1) + bit_events(spec_bit(b, k - 1))
    }
}

/// Emitting one byte: its 8 bits, most significant first, each followed
/// by a clock pulse.
pub open spec fn byte_events(b: u8) -> Seq<PinEvent> {
    byte_prefix(b, 8)
}

/// Emitting a sequence of bytes back to back.
pub open spec fn shift_events(bs: Seq<u8>) -> Seq<PinEvent>
    decreases bs.len(),
{
    if bs.len() == 0 {
        Seq::empty()
    } else {
        shift_events(bs.drop_last()) + byte_events(bs.last())
    }
}

/// The 24 data bytes of one row transmission: for each column from 7 down
/// to 0, the gamma-corrected blue, green and red channels of that
/// column's color, in that order.
pub open spec fn row_bytes(pix: Seq<Color>) -> Seq<u8> {
    Seq::new(
        24,
        |j: int|
            {
                let c = pix[7 - j / 3];
                if j % 3 == 0 {
                    spec_gamma(c.b)
                } else if j % 3 == 1 {
                    spec_gamma(c.g)
                } else {
                    spec_gamma(c.r)
                }
            },
    )
}

/// The physical row that was active before `row`: its predecessor,
/// wrapping from 0 back to 7.
pub open spec fn prev_row(row: int) -> u8 {
    if row == 0 {
        7u8
    } else {
        (row - 1) as u8
    }
}

/// Everything one `send_row` call emits: the first 7 data bytes, then the
/// deassertion of the previous row's select line (a fixed early point,
/// after the blue byte of column 5, chosen to hide multiplexing
/// glitches), the remaining 17 data bytes, the assertion of the new
/// row's select line, and a latch pulse.
pub open spec fn row_events(row: int, pix: Seq<Color>) -> Seq<PinEvent> {
    shift_events(row_bytes(pix).take(7)) + seq![lvl(Line::RowSel(prev_row(row)), false)]
        + shift_events(row_bytes(pix).skip(7)) + seq![lvl(Line::RowSel(row as u8), true)]
        + lat_pulse()
}

/// The bank-programming bits: `k` all-on bits, each clocked.
pub open spec fn ones_events(k: int) -> Seq<PinEvent>
    decreases k,
{
    if k <= 0 {
        Seq::empty()
    } else {
        ones_events(k - 1) + bit_events(true)
    }
}

/// The one-time bank initialization: blank low, 144 all-on bits (18 bytes
/// of 8 bits, one clock pulse per bit), a latch pulse, blank high again.
pub open spec fn bank0_events() -> Seq<PinEvent> {
    seq![lvl(Line::Sb, false)] + ones_events(144) + lat_pulse() + seq![lvl(Line::Sb, true)]
}

/// The initial line configuration: blank, latch and reset high, data,
/// clock and every row-select line low.
pub open spec fn config_events() -> Seq<PinEvent> {
    seq![
        lvl(Line::Sb, true),
        lvl(Line::Lat, true),
        lvl(Line::Rst, true),
        lvl(Line::Sck, false),
        lvl(Line::Sda, false),
        lvl(Line::RowSel(0), false),
        lvl(Line::RowSel(1), false),
        lvl(Line::RowSel(2), false),
        lvl(Line::RowSel(3), false),
        lvl(Line::RowSel(4), false),
        lvl(Line::RowSel(5), false),
        lvl(Line::RowSel(6), false),
        lvl(Line::RowSel(7), false),
    ]
}

/// The whole power-up sequence: configure the lines, wait 100 ms for the
/// driver chips to settle, raise reset, then program the current bank.
pub open spec fn init_events() -> Seq<PinEvent> {
    config_events() + seq![PinEvent::Settle { ms: 100 }] + seq![lvl(Line::Rst, true)]
        + bank0_events()
}

/// One full refresh: rows 0 through 7 in order, back to back.
pub open spec fn rows_done(img: Seq<Color>, k: int) -> Seq<PinEvent>
    decreases k,
{
    if k <= 0 {
        Seq::empty()
    } else {
        rows_done(img, k - 1) + row_events(k - 1, img.subrange(8 * (k - 1), 8 * (k - 1) + 8))
    }
}

/// Everything one `display_image` call emits.
pub open spec fn image_events(img: Seq<Color>) -> Seq<PinEvent> {
    rows_done(img, 8)
}

/// The driver. Its view is the trace of pin events emitted so far.
pub struct Matrix {
    trace: Vec<PinEvent>,
}

impl View for Matrix {
    type V = Seq<PinEvent>;

    closed spec fn view(&self) -> Seq<PinEvent> {
        self.trace@
    }
}

proof fn lemma_shift_snoc(s: Seq<u8>, a: int, m: int)
    requires
        0 <= a <= m < s.len(),
    ensures
        shift_events(s.subrange(a, m + 1)) == shift_events(s.subrange(a, m)) + byte_events(s[m]),
{
    let t = s.subrange(a, m + 1);
    assert(t.drop_last() =~= s.subrange(a, m));
    assert(t.last() == s[m]);
}

impl Matrix {
    /// A driver that has performed its whole power-up sequence.
    pub fn new() -> (m: Matrix)
        ensures
            m@ == init_events(),
    {
        let mut m = Matrix { trace: Vec::new() };
        m.set_line(Line::Sb, true);
        m.set_line(Line::Lat, true);
        m.set_line(Line::Rst, true);
        m.set_line(Line::Sck, false);
        m.set_line(Line::Sda, false);
        let mut r: u8 = 0;
        while r < 8
            invariant
                r <= 8,
                m@ == config_events().take(5 + r as int),
            decreases 8 - r,
        {
            proof {
                assert(config_events().take(5 + r as int).push(lvl(Line::RowSel(r), false))
                    =~= config_events().take(5 + r as int + 1));
            }
            m.set_line(Line::RowSel(r), false);
            r += 1;
        }
        assert(m@ =~= config_events());
        m.wait_ms(100);
        m.set_line(Line::Rst, true);
        m.init_bank0();
        proof {
            assert(m@ =~= init_events());
        }
        m
    }

    /// The trace of pin events emitted so far.
    pub fn events(&self) -> (t: &Vec<PinEvent>)
        ensures
            t@ == self@,
    {
        &self.trace
    }

    /// Hands the accumulated trace to the caller and starts a fresh one,
    /// so the environment can replay the transitions onto real pins.
    pub fn take_events(&mut self) -> (t: Vec<PinEvent>)
        ensures
            t@ == old(self)@,
            final(self)@ == Seq::<PinEvent>::empty(),
    {
        let mut t: Vec<PinEvent> = Vec::new();
        core::mem::swap(&mut t, &mut self.trace);
        t
    }

    fn set_line(&mut self, line: Line, high: bool)
        ensures
            final(self)@ == old(self)@ + seq![lvl(line, high)],
    {
        self.trace.push(PinEvent::Level { line, high });
        proof {
            assert(self@ =~= old(self)@ + seq![lvl(line, high)]);
        }
    }

    fn wait_ms(&mut self, ms: u32)
        ensures
            final(self)@ == old(self)@ + seq![PinEvent::Settle { ms }],
    {
        self.trace.push(PinEvent::Settle { ms });
        proof {
            assert(self@ =~= old(self)@ + seq![PinEvent::Settle { ms }]);
        }
    }

    /// A brief high pulse of the serial clock.
    fn pulse_sck(&mut self)
        ensures
            final(self)@ == old(self)@ + sck_pulse(),
    {
        self.set_line(Line::Sck, true);
        self.set_line(Line::Sck, false);
        proof {
            assert(self@ =~= old(self)@ + sck_pulse());
        }
    }

    /// A brief low pulse of the latch line.
    fn pulse_lat(&mut self)
        ensures
            final(self)@ == old(self)@ + lat_pulse(),
    {
        self.set_line(Line::Lat, false);
        self.set_line(Line::Lat, true);
        proof {
            assert(self@ =~= old(self)@ + lat_pulse());
        }
    }

    /// Sends one byte on the data line, most significant bit first,
    /// pulsing the clock after every bit.
    fn send_byte(&mut self, pixel: u8)
        ensures
            final(self)@ == old(self)@ + byte_events(pixel),
    {
        let mut k: usize = 0;
        while k < 8
            invariant
                k <= 8,
                self@ == old(self)@ + byte_prefix(pixel, k as int),
            decreases 8 - k,
        {
            let shift: u32 = 7 - k as u32;
            let bit: bool = ((pixel as u32) >> shift) & 1 == 1;
            self.set_line(Line::Sda, bit);
            self.pulse_sck();
            proof {
                assert(bit == spec_bit(pixel, k as int));
                assert(self@ =~= old(self)@ + byte_prefix(pixel, k as int + 1));
            }
            k += 1;
        }
    }

    /// Sends one full row: for each of the 8 columns in descending order,
    /// the gamma-corrected blue, green and red bytes of that column's
    /// color; deasserts the previous row's select line at a fixed point
    /// after the blue byte of column 5; then asserts the new row's select
    /// line and pulses the latch to commit.
    #[verifier::rlimit(60)]
    pub fn send_row(&mut self, row: usize, pixels: &[Color])
        requires
            row < 8,
            pixels@.len() == 8,
        ensures
            final(self)@ == old(self)@ + row_events(row as int, pixels@),
    {
        let prev: u8 = if row == 0 {
            7
        } else {
            (row - 1) as u8
        };
        let ghost rb = row_bytes(pixels@);
        let mut k: usize = 0;
        while k < 8
            invariant
                k <= 8,
                row < 8,
                pixels@.len() == 8,
                prev == prev_row(row as int),
                rb == row_bytes(pixels@),
                k <= 2 ==> self@ == old(self)@ + shift_events(rb.take(3 * k)),
                k >= 3 ==> self@ == old(self)@ + shift_events(rb.take(7)) + seq![
                    lvl(Line::RowSel(prev), false),
                ] + shift_events(rb.subrange(7, 3 * k)),
            decreases 8 - k,
        {
            let col: usize = 7 - k;
            let c: Color = pixels[col];
            let gc = c.gamma_correct();
            proof {
                assert(rb[3 * k as int] == spec_gamma(c.b));
                assert(rb[3 * k as int + 1] == spec_gamma(c.g));
                assert(rb[3 * k as int + 2] == spec_gamma(c.r));
            }
            self.send_byte(gc.b);
            if col == 5 {
                proof {
                    lemma_shift_snoc(rb, 0, 6);
                    assert(rb.take(6) =~= rb.subrange(0, 6));
                    assert(rb.take(7) =~= rb.subrange(0, 7));
                    assert(self@ =~= old(self)@ + shift_events(rb.take(7)));
                }
                self.set_line(Line::RowSel(prev), false);
                proof {
                    assert(rb.subrange(7, 7) =~= Seq::<u8>::empty());
                    assert(self@ =~= old(self)@ + shift_events(rb.take(7)) + seq![
                        lvl(Line::RowSel(prev), false),
                    ] + shift_events(rb.subrange(7, 7)));
                }
            } else {
                proof {
                    if k <= 1 {
                        lemma_shift_snoc(rb, 0, 3 * k as int);
                        assert(rb.take(3 * k as int) =~= rb.subrange(0, 3 * k as int));
                        assert(rb.take(3 * k as int + 1) =~= rb.subrange(0, 3 * k as int + 1));
                        assert(self@ =~= old(self)@ + shift_events(rb.take(3 * k as int + 1)));
                    } else {
                        lemma_shift_snoc(rb, 7, 3 * k as int);
                        assert(self@ =~= old(self)@ + shift_events(rb.take(7)) + seq![
                            lvl(Line::RowSel(prev), false),
                        ] + shift_events(rb.subrange(7, 3 * k as int + 1)));
                    }
                }
            }
            self.send_byte(gc.g);
            self.send_byte(gc.r);
            proof {
                if k <= 1 {
                    lemma_shift_snoc(rb, 0, 3 * k as int + 1);
                    lemma_shift_snoc(rb, 0, 3 * k as int + 2);
                    assert(rb.take(3 * k as int + 1) =~= rb.subrange(0, 3 * k as int + 1));
                    assert(rb.take(3 * k as int + 2) =~= rb.subrange(0, 3 * k as int + 2));
                    assert(rb.take(3 * k as int + 3) =~= rb.subrange(0, 3 * k as int + 3));
                    assert(self@ =~= old(self)@ + shift_events(rb.take(3 * (k as int + 1))));
                } else {
                    lemma_shift_snoc(rb, 7, 3 * k as int + 1);
                    lemma_shift_snoc(rb, 7, 3 * k as int + 2);
                    assert(self@ =~= old(self)@ + shift_events(rb.take(7)) + seq![
                        lvl(Line::RowSel(prev), false),
                    ] + shift_events(rb.subrange(7, 3 * (k as int + 1))));
                }
            }
            k += 1;
        }
        self.set_line(Line::RowSel(row as u8), true);
        self.pulse_lat();
        proof {
            assert(rb.subrange(7, 24) =~= rb.skip(7));
            assert(self@ =~= old(self)@ + row_events(row as int, pixels@));
        }
    }

    /// Programs the driver chips' current-control bank to all-on:
    /// temporarily un-blanks, shifts in 144 one bits with a clock pulse
    /// after each, latches, and re-blanks.
    fn init_bank0(&mut self)
        ensures
            final(self)@ == old(self)@ + bank0_events(),
    {
        self.set_line(Line::Sb, false);
        let mut n: usize = 0;
        while n < 144
            invariant
                n <= 144,
                self@ == old(self)@ + seq![lvl(Line::Sb, false)] + ones_events(n as int),
            decreases 144 - n,
        {
            self.set_line(Line::Sda, true);
            self.pulse_sck();
            proof {
                assert(self@ =~= old(self)@ + seq![lvl(Line::Sb, false)] + ones_events(
                    n as int + 1,
                ));
            }
            n += 1;
        }
        self.pulse_lat();
        self.set_line(Line::Sb, true);
        proof {
            assert(self@ =~= old(self)@ + bank0_events());
        }
    }

    /// Displays a full image, row by row, back to back: the only pacing
    /// between rows is whatever the caller adds.
    pub fn display_image(&mut self, image: &Image)
        requires
            image@.len() == 64,
        ensures
            final(self)@ == old(self)@ + image_events(image@),
    {
        let mut row: usize = 0;
        while row < 8
            invariant
                row <= 8,
                image@.len() == 64,
                self@ == old(self)@ + rows_done(image@, row as int),
            decreases 8 - row,
        {
            let pixels = image.row(row);
            self.send_row(row, pixels);
            proof {
                assert(self@ =~= old(self)@ + rows_done(image@, row as int + 1));
            }
            row += 1;
        }
    }
}

} // verus!
