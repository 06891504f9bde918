//! The driver: framing, window addressing, initialization, rasterization.
//!
//! Every operation is specified by [`Driver::issues`]: the exact sequence
//! of [`BusEvent`]s it appends to the driver's trace, coupled wire by
//! wire to the histories of the serial link and the two select lines, so
//! that the stated traffic is exactly what the collaborators were asked
//! to do.  See [`crate::bus`] for the event model and its projections.

use vstd::prelude::*;

use crate::bus::{
    cmd_frame, csx_of, data_frame, dcx_of, hi_byte, lemma_cmd_frame_proj, lemma_data_frame_proj,
    lemma_marker_proj, lemma_proj_add, lemma_word_frame_proj, lo_byte, pixel_run, serial_of,
    word_frame, BusEvent,
};
use crate::command::{Command, GammaCurve, PixelFormat};
use crate::gpio::Pin;
use crate::spi::Serial;
use crate::Delay;

verus! {

/// A packed 5-6-5 color value: 5 bits red, 6 bits green, 5 bits blue.
pub type Color = u16;

/// Convert an 8-bit-per-channel color to the controller's packed 16-bit
/// representation: red truncated to its top 5 bits, green to its top 6,
/// blue to its top 5, packed as `red << 11 | green << 5 | blue`.
pub fn parse_color(r: u8, g: u8, b: u8) -> (c: Color)
    ensures
        c == (((r & 0xF8) as u16) << 8) | (((g & 0xFC) as u16) << 3) | (((b & 0xF8) as u16) >> 3),
{
    let red: u16 = ((r & 0b11111000) as u16) << 8;
    let green: u16 = ((g & 0b11111100) as u16) << 3;
    let blue: u16 = ((b & 0b11111000) as u16) >> 3;
    red | green | blue
}

/// Main structure to manage the LCD board.
///
/// Give this `Driver` an activated serial device, the `D/CX` and `CSX`
/// pins ready for output, and a delay capability.  Construction runs the
/// one-shot initialization sequence; afterwards the controller is
/// drawable.
pub struct Driver<S, DCX, CSX, D> where S: Serial, DCX: Pin, CSX: Pin, D: Delay {
    /// Main data bus; connects to SCK (clock) and SDA (MOSI).
    spi: S,
    /// D/CX: data/command selection pin; low for a command byte, high for
    /// a data byte.
    dcx: DCX,
    /// Chip enable pin, driven low around every byte transfer.
    csx: CSX,
    /// The delay capability, used only during initialization.
    delay: D,
    /// The interleaved order of everything the driver has asked of its
    /// collaborators.
    log: Ghost<Seq<BusEvent>>,
}

impl<S, DCX, CSX, D> Driver<S, DCX, CSX, D> where S: Serial, DCX: Pin, CSX: Pin, D: Delay {
    /// The trace of bus events issued since construction began.
    pub closed spec fn events(&self) -> Seq<BusEvent> {
        self.log@
    }

    /// The bytes the serial link has been asked to transmit, in order.
    pub closed spec fn serial_hist(&self) -> Seq<u8> {
        self.spi.hist()
    }

    /// The levels the data/command select line has been driven to.
    pub closed spec fn dcx_hist(&self) -> Seq<bool> {
        self.dcx.hist()
    }

    /// The levels the chip enable line has been driven to.
    pub closed spec fn csx_hist(&self) -> Seq<bool> {
        self.csx.hist()
    }

    /// The pauses requested from the delay capability, in milliseconds.
    pub closed spec fn delay_hist(&self) -> Seq<u16> {
        self.delay.paused()
    }

    /// Between the two driver states, exactly `delta` was issued: the
    /// event trace grows by `delta`, the serial link receives exactly its
    /// bytes, and each select and enable line exactly its level
    /// transitions.  Only the interleaving across the three wires rests
    /// on the trace alone; each wire's own content and order is grounded
    /// in that collaborator's history.
    pub open spec fn issues(self, post: Self, delta: Seq<BusEvent>) -> bool {
        &&& post.events() == self.events() + delta
        &&& post.serial_hist() == self.serial_hist() + serial_of(delta)
        &&& post.dcx_hist() == self.dcx_hist() + dcx_of(delta)
        &&& post.csx_hist() == self.csx_hist() + csx_of(delta)
    }

    /// A state issues the empty trace to itself.
    pub proof fn lemma_issues_refl(a: Self)
        ensures
            a.issues(a, Seq::<BusEvent>::empty()),
    {
        let e = Seq::<BusEvent>::empty();
        assert(serial_of(e) == Seq::<u8>::empty());
        assert(dcx_of(e) == Seq::<bool>::empty());
        assert(csx_of(e) == Seq::<bool>::empty());
        assert(a.events() + e =~= a.events());
        assert(a.serial_hist() + serial_of(e) =~= a.serial_hist());
        assert(a.dcx_hist() + dcx_of(e) =~= a.dcx_hist());
        assert(a.csx_hist() + csx_of(e) =~= a.csx_hist());
    }

    /// Issuing `d1` and then `d2` issues their concatenation.
    pub proof fn lemma_issues_trans(a: Self, b: Self, c: Self, d1: Seq<BusEvent>, d2: Seq<BusEvent>)
        requires
            a.issues(b, d1),
            b.issues(c, d2),
        ensures
            a.issues(c, d1 + d2),
    {
        lemma_proj_add(d1, d2);
        assert(c.events() =~= a.events() + (d1 + d2));
        assert(c.serial_hist() =~= a.serial_hist() + serial_of(d1 + d2));
        assert(c.dcx_hist() =~= a.dcx_hist() + dcx_of(d1 + d2));
        assert(c.csx_hist() =~= a.csx_hist() + csx_of(d1 + d2));
    }

    /// Send one command byte: command select, chip enable, opcode byte,
    /// chip disable.
    pub fn write_cmd(&mut self, cmd: Command)
        ensures
            old(self).issues(*final(self), cmd_frame(cmd.opcode_spec())),
            final(self).delay_hist() == old(self).delay_hist(),
    {
        self.dcx.low();
        self.log = Ghost(self.log@.push(BusEvent::DcxLow));

        self.csx.low();
        self.log = Ghost(self.log@.push(BusEvent::CsxLow));
        let op = cmd.opcode();
        self.spi.write(op);
        self.log = Ghost(self.log@.push(BusEvent::Byte(op)));
        self.csx.high();
        self.log = Ghost(self.log@.push(BusEvent::CsxHigh));

        proof {
            lemma_cmd_frame_proj(cmd.opcode_spec());
            assert(self.events() =~= old(self).events() + cmd_frame(cmd.opcode_spec()));
            assert(self.serial_hist() =~= old(self).serial_hist()
                + serial_of(cmd_frame(cmd.opcode_spec())));
            assert(self.dcx_hist() =~= old(self).dcx_hist() + dcx_of(cmd_frame(cmd.opcode_spec())));
            assert(self.csx_hist() =~= old(self).csx_hist() + csx_of(cmd_frame(cmd.opcode_spec())));
        }
    }

    /// Send one data byte: data select, chip enable, data byte, chip
    /// disable.
    pub fn write_data(&mut self, data: u8)
        ensures
            old(self).issues(*final(self), data_frame(data)),
            final(self).delay_hist() == old(self).delay_hist(),
    {
        self.dcx.high();
        self.log = Ghost(self.log@.push(BusEvent::DcxHigh));

        self.csx.low();
        self.log = Ghost(self.log@.push(BusEvent::CsxLow));
        self.spi.write(data);
        self.log = Ghost(self.log@.push(BusEvent::Byte(data)));
        self.csx.high();
        self.log = Ghost(self.log@.push(BusEvent::CsxHigh));

        proof {
            lemma_data_frame_proj(data);
            assert(self.events() =~= old(self).events() + data_frame(data));
            assert(self.serial_hist() =~= old(self).serial_hist() + serial_of(data_frame(data)));
            assert(self.dcx_hist() =~= old(self).dcx_hist() + dcx_of(data_frame(data)));
            assert(self.csx_hist() =~= old(self).csx_hist() + csx_of(data_frame(data)));
        }
    }

    /// Send one 16-bit data word in a single enable bracket, most
    /// significant byte first.
    pub fn write_data_16(&mut self, data: u16)
        ensures
            old(self).issues(*final(self), word_frame(data)),
            final(self).delay_hist() == old(self).delay_hist(),
    {
        self.dcx.high();
        self.log = Ghost(self.log@.push(BusEvent::DcxHigh));

        self.csx.low();
        self.log = Ghost(self.log@.push(BusEvent::CsxLow));
        assert(data >> 8 < 256 && data & 0xFF < 256) by (bit_vector);
        let hi = (data >> 8) as u8;
        let lo = (data & 0xFF) as u8;
        self.spi.write(hi);
        self.log = Ghost(self.log@.push(BusEvent::Byte(hi)));
        self.spi.write(lo);
        self.log = Ghost(self.log@.push(BusEvent::Byte(lo)));
        self.csx.high();
        self.log = Ghost(self.log@.push(BusEvent::CsxHigh));

        proof {
            lemma_word_frame_proj(data);
            assert(hi == hi_byte(data));
            assert(lo == lo_byte(data));
            assert(self.events() =~= old(self).events() + word_frame(data));
            assert(self.serial_hist() =~= old(self).serial_hist() + serial_of(word_frame(data)));
            assert(self.dcx_hist() =~= old(self).dcx_hist() + dcx_of(word_frame(data)));
            assert(self.csx_hist() =~= old(self).csx_hist() + csx_of(word_frame(data)));
        }
    }

    /// Send one pixel: with 16-bit colors (5-6-5), just the two bytes of
    /// the packed value.
    pub fn write_pixel(&mut self, color: Color)
        ensures
            old(self).issues(*final(self), word_frame(color)),
            final(self).delay_hist() == old(self).delay_hist(),
    {
        self.write_data_16(color);
    }

    // Mid-level functions

    /// Select the interface pixel format (COLMOD plus one parameter byte).
    pub fn set_pixel_format(&mut self, format: PixelFormat)
        ensures
            old(self).issues(
                *final(self),
                cmd_frame(Command::InterfacePixelFormat.opcode_spec())
                    + data_frame(format.bits_spec()),
            ),
            final(self).delay_hist() == old(self).delay_hist(),
    {
        let ghost pre = *self;
        self.write_cmd(Command::InterfacePixelFormat);
        let ghost mid = *self;
        let bits = format.bits();
        self.write_data(bits);
        proof {
            Self::lemma_issues_trans(
                pre,
                mid,
                *self,
                cmd_frame(Command::InterfacePixelFormat.opcode_spec()),
                data_frame(format.bits_spec()),
            );
        }
    }

    /// Select a gamma curve (GAMSET plus one parameter byte).
    pub fn set_gamma_curve(&mut self, curve: GammaCurve)
        ensures
            old(self).issues(
                *final(self),
                cmd_frame(Command::GammaSet.opcode_spec()) + data_frame(curve.bits_spec()),
            ),
            final(self).delay_hist() == old(self).delay_hist(),
    {
        let ghost pre = *self;
        self.write_cmd(Command::GammaSet);
        let ghost mid = *self;
        let bits = curve.bits();
        self.write_data(bits);
        proof {
            Self::lemma_issues_trans(
                pre,
                mid,
                *self,
                cmd_frame(Command::GammaSet.opcode_spec()),
                data_frame(curve.bits_spec()),
            );
        }
    }

    /// Enable or disable gamma fine adjustment (GAM_R_SEL plus one
    /// parameter byte: 1 to enable, 0 to disable).
    pub fn set_gamma_adjustment(&mut self, enable: bool)
        ensures
            old(self).issues(
                *final(self),
                cmd_frame(Command::GamRSel.opcode_spec())
                    + data_frame(if enable { 1u8 } else { 0u8 }),
            ),
            final(self).delay_hist() == old(self).delay_hist(),
    {
        let ghost pre = *self;
        self.write_cmd(Command::GamRSel);
        let ghost mid = *self;
        let bits: u8 = if enable { 1 } else { 0 };
        self.write_data(bits);
        proof {
            Self::lemma_issues_trans(
                pre,
                mid,
                *self,
                cmd_frame(Command::GamRSel.opcode_spec()),
                data_frame(if enable { 1u8 } else { 0u8 }),
            );
        }
    }

    /// Program the writable memory window.
    ///
    /// Both `start` and `end` are inclusive.  The column addresses go out
    /// first (CASET with start and end as 16-bit words), then the page
    /// addresses (PASET likewise).
    pub fn set_window(&mut self, start: (u16, u16), end: (u16, u16))
        requires
            start.0 <= end.0,
            start.1 <= end.1,
        ensures
            old(self).issues(*final(self), window_events(start.0, start.1, end.0, end.1)),
            final(self).delay_hist() == old(self).delay_hist(),
    {
        let (startx, starty) = start;
        let (endx, endy) = end;
        let ghost s0 = *self;
        self.write_cmd(Command::ColumnAddressSet);
        let ghost s1 = *self;
        self.write_data_16(startx);
        let ghost s2 = *self;
        self.write_data_16(endx);
        let ghost s3 = *self;
        self.write_cmd(Command::PageAddressSet);
        let ghost s4 = *self;
        self.write_data_16(starty);
        let ghost s5 = *self;
        self.write_data_16(endy);

        proof {
            let ca = cmd_frame(Command::ColumnAddressSet.opcode_spec());
            let pa = cmd_frame(Command::PageAddressSet.opcode_spec());
            Self::lemma_issues_trans(s0, s1, s2, ca, word_frame(start.0));
            Self::lemma_issues_trans(s0, s2, s3, ca + word_frame(start.0), word_frame(end.0));
            Self::lemma_issues_trans(
                s0,
                s3,
                s4,
                ca + word_frame(start.0) + word_frame(end.0),
                pa,
            );
            Self::lemma_issues_trans(
                s0,
                s4,
                s5,
                ca + word_frame(start.0) + word_frame(end.0) + pa,
                word_frame(start.1),
            );
            Self::lemma_issues_trans(
                s0,
                s5,
                *self,
                ca + word_frame(start.0) + word_frame(end.0) + pa + word_frame(start.1),
                word_frame(end.1),
            );
        }
    }

    /// Bring the controller from reset to a drawable state.
    ///
    /// Runs exactly once, at construction: chip enable asserted, software
    /// reset, a 500 ms pause, sleep-out, a 5 ms pause, 16-bit pixel
    /// format, gamma curve selection number three, gamma fine adjustment
    /// enabled, normal mode, and the display function set with its two
    /// fixed configuration bytes.  The two pauses go to the delay
    /// capability, in that order.  Best-effort: the controller offers no
    /// read-back, so nothing verifies that it responded.
    pub fn new(spi: S, dcx: DCX, csx: CSX, delay: D) -> (r: Self)
        ensures
            r.events() == init_events(),
            r.serial_hist() == spi.hist() + serial_of(init_events()),
            r.dcx_hist() == dcx.hist() + dcx_of(init_events()),
            r.csx_hist() == csx.hist() + csx_of(init_events()),
            r.delay_hist() == delay.paused() + seq![500u16, 5u16],
    {
        let mut driver = Driver {
            spi,
            dcx,
            csx,
            delay,
            log: Ghost(Seq::empty()),
        };
        let ghost d0 = driver;

        driver.csx.low();
        driver.log = Ghost(driver.log@.push(BusEvent::CsxLow));
        let ghost d1 = driver;
        proof {
            lemma_marker_proj(500);
            lemma_marker_proj(5);
            assert(d1.events() =~= d0.events() + seq![BusEvent::CsxLow]);
            assert(d1.serial_hist() =~= d0.serial_hist() + serial_of(seq![BusEvent::CsxLow]));
            assert(d1.dcx_hist() =~= d0.dcx_hist() + dcx_of(seq![BusEvent::CsxLow]));
            assert(d1.csx_hist() =~= d0.csx_hist() + csx_of(seq![BusEvent::CsxLow]));
        }

        driver.write_cmd(Command::SoftwareReset);
        let ghost d2 = driver;
        driver.delay.sleep(500);
        driver.log = Ghost(driver.log@.push(BusEvent::Pause(500)));
        let ghost d3 = driver;
        proof {
            assert(d3.events() =~= d2.events() + seq![BusEvent::Pause(500)]);
            assert(d3.serial_hist() =~= d2.serial_hist() + serial_of(seq![BusEvent::Pause(500)]));
            assert(d3.dcx_hist() =~= d2.dcx_hist() + dcx_of(seq![BusEvent::Pause(500)]));
            assert(d3.csx_hist() =~= d2.csx_hist() + csx_of(seq![BusEvent::Pause(500)]));
        }

        driver.write_cmd(Command::SleepOut);
        let ghost d4 = driver;
        driver.delay.sleep(5);
        driver.log = Ghost(driver.log@.push(BusEvent::Pause(5)));
        let ghost d5 = driver;
        proof {
            assert(d5.events() =~= d4.events() + seq![BusEvent::Pause(5)]);
            assert(d5.serial_hist() =~= d4.serial_hist() + serial_of(seq![BusEvent::Pause(5)]));
            assert(d5.dcx_hist() =~= d4.dcx_hist() + dcx_of(seq![BusEvent::Pause(5)]));
            assert(d5.csx_hist() =~= d4.csx_hist() + csx_of(seq![BusEvent::Pause(5)]));
        }

        driver.set_pixel_format(PixelFormat::Bpp16);
        let ghost d6 = driver;
        driver.set_gamma_curve(GammaCurve::Curve3);
        let ghost d7 = driver;
        driver.set_gamma_adjustment(true);
        let ghost d8 = driver;

        driver.write_cmd(Command::NormalModeOn);
        let ghost d9 = driver;

        driver.write_cmd(Command::DisplayFunctionSet5);
        let ghost d10 = driver;
        driver.write_data(0b11111111);
        let ghost d11 = driver;
        driver.write_data(0b00000000);

        proof {
            let e_on = seq![BusEvent::CsxLow];
            let p500 = seq![BusEvent::Pause(500)];
            let p5 = seq![BusEvent::Pause(5)];
            let f_reset = cmd_frame(Command::SoftwareReset.opcode_spec());
            let f_slpout = cmd_frame(Command::SleepOut.opcode_spec());
            let f_fmt = cmd_frame(Command::InterfacePixelFormat.opcode_spec())
                + data_frame(PixelFormat::Bpp16.bits_spec());
            let f_gamma = cmd_frame(Command::GammaSet.opcode_spec())
                + data_frame(GammaCurve::Curve3.bits_spec());
            let f_adj = cmd_frame(Command::GamRSel.opcode_spec()) + data_frame(1u8);
            let f_normal = cmd_frame(Command::NormalModeOn.opcode_spec());
            let f_set5 = cmd_frame(Command::DisplayFunctionSet5.opcode_spec());
            let f_hi = data_frame(0b11111111u8);
            let f_lo = data_frame(0b00000000u8);
            Self::lemma_issues_trans(d0, d1, d2, e_on, f_reset);
            Self::lemma_issues_trans(d0, d2, d3, e_on + f_reset, p500);
            Self::lemma_issues_trans(d0, d3, d4, e_on + f_reset + p500, f_slpout);
            Self::lemma_issues_trans(d0, d4, d5, e_on + f_reset + p500 + f_slpout, p5);
            Self::lemma_issues_trans(d0, d5, d6, e_on + f_reset + p500 + f_slpout + p5, f_fmt);
            Self::lemma_issues_trans(
                d0,
                d6,
                d7,
                e_on + f_reset + p500 + f_slpout + p5 + f_fmt,
                f_gamma,
            );
            Self::lemma_issues_trans(
                d0,
                d7,
                d8,
                e_on + f_reset + p500 + f_slpout + p5 + f_fmt + f_gamma,
                f_adj,
            );
            Self::lemma_issues_trans(
                d0,
                d8,
                d9,
                e_on + f_reset + p500 + f_slpout + p5 + f_fmt + f_gamma + f_adj,
                f_normal,
            );
            Self::lemma_issues_trans(
                d0,
                d9,
                d10,
                e_on + f_reset + p500 + f_slpout + p5 + f_fmt + f_gamma + f_adj + f_normal,
                f_set5,
            );
            Self::lemma_issues_trans(
                d0,
                d10,
                d11,
                e_on + f_reset + p500 + f_slpout + p5 + f_fmt + f_gamma + f_adj + f_normal
                    + f_set5,
                f_hi,
            );
            Self::lemma_issues_trans(
                d0,
                d11,
                driver,
                e_on + f_reset + p500 + f_slpout + p5 + f_fmt + f_gamma + f_adj + f_normal
                    + f_set5 + f_hi,
                f_lo,
            );
            assert(e_on + f_reset + p500 + f_slpout + p5 + f_fmt + f_gamma + f_adj + f_normal
                + f_set5 + f_hi + f_lo =~= init_events());
            assert(driver.events() =~= init_events());
            assert(driver.serial_hist() =~= spi.hist() + serial_of(init_events()));
            assert(driver.dcx_hist() =~= dcx.hist() + dcx_of(init_events()));
            assert(driver.csx_hist() =~= csx.hist() + csx_of(init_events()));
            assert(driver.delay_hist() =~= delay.paused() + seq![500u16, 5u16]);
        }
        driver
    }

    // High-level interface

    /// Fill a rectangle: program the window to cover it, issue one
    /// memory-write opcode, then stream one pixel word per covered cell.
    /// A degenerate extent (zero width or height) covers nothing and
    /// issues no traffic at all.
    ///
    /// This method is enough to implement all higher-level methods.
    pub fn fill_rect(&mut self, origin: (u16, u16), extent: (u16, u16), color: Color)
        requires
            origin.0 + extent.0 <= 65536,
            origin.1 + extent.1 <= 65536,
        ensures
            old(self).issues(
                *final(self),
                fill_events(origin.0, origin.1, extent.0, extent.1, color),
            ),
            final(self).delay_hist() == old(self).delay_hist(),
    {
        let (x, y) = origin;
        let (width, height) = extent;
        let ghost pre = *self;
        if width == 0 || height == 0 {
            proof {
                Self::lemma_issues_refl(pre);
                assert(fill_events(origin.0, origin.1, extent.0, extent.1, color)
                    == Seq::<BusEvent>::empty());
            }
            return;
        }
        self.set_window((x, y), (x + (width - 1), y + (height - 1)));
        let ghost s1 = *self;
        self.write_cmd(Command::MemoryWrite);

        let ghost windowed = window_events(x, y, (x + width - 1) as u16, (y + height - 1) as u16)
            + cmd_frame(Command::MemoryWrite.opcode_spec());
        proof {
            Self::lemma_issues_trans(
                pre,
                s1,
                *self,
                window_events(x, y, (x + width - 1) as u16, (y + height - 1) as u16),
                cmd_frame(Command::MemoryWrite.opcode_spec()),
            );
            assert(pixel_run(color, 0nat) == Seq::<BusEvent>::empty());
            assert(windowed + pixel_run(color, 0nat) =~= windowed);
            assert((width as int) * (height as int) <= 65535 * 65535) by (nonlinear_arith)
                requires
                    width <= 65535,
                    height <= 65535,
            ;
        }
        let total: u64 = (width as u64) * (height as u64);
        let mut i: u64 = 0;
        while i < total
            invariant
                i <= total,
                pre.issues(*self, windowed + pixel_run(color, i as nat)),
                self.delay_hist() == pre.delay_hist(),
            decreases total - i,
        {
            let ghost cur = *self;
            self.write_pixel(color);
            proof {
                Self::lemma_issues_trans(
                    pre,
                    cur,
                    *self,
                    windowed + pixel_run(color, i as nat),
                    word_frame(color),
                );
                assert((windowed + pixel_run(color, i as nat)) + word_frame(color)
                    =~= windowed + pixel_run(color, (i + 1) as nat));
            }
            i = i + 1;
        }

        proof {
            assert(total as nat == (width * height) as nat);
            assert(windowed + pixel_run(color, total as nat)
                =~= fill_events(origin.0, origin.1, extent.0, extent.1, color));
        }
    }

    /// Fill the whole fixed 128 by 128 panel with one color.
    pub fn clear_screen(&mut self, color: Color)
        ensures
            old(self).issues(*final(self), fill_events(0, 0, 128, 128, color)),
            final(self).delay_hist() == old(self).delay_hist(),
    {
        self.fill_rect((0, 0), (128, 128), color);
    }

    /// Draw a horizontal line of `length` pixels rightwards from `p`, as
    /// a one-row rectangle fill.
    pub fn draw_hline(&mut self, p: (u16, u16), length: u16, color: Color)
        requires
            p.0 + length <= 65536,
        ensures
            old(self).issues(*final(self), fill_events(p.0, p.1, length, 1, color)),
            final(self).delay_hist() == old(self).delay_hist(),
    {
        self.fill_rect(p, (length, 1), color);
    }

    /// Draw a vertical line of `length` pixels downwards from `p`, as a
    /// one-column rectangle fill.
    pub fn draw_vline(&mut self, p: (u16, u16), length: u16, color: Color)
        requires
            p.1 + length <= 65536,
        ensures
            old(self).issues(*final(self), fill_events(p.0, p.1, 1, length, color)),
            final(self).delay_hist() == old(self).delay_hist(),
    {
        self.fill_rect(p, (1, length), color);
    }

    /// Draw the outline of a rectangle as up to four border segments.
    ///
    /// When the height exceeds one, the bottom edge and the left edge go
    /// out; when the width exceeds one, the top edge and the right edge
    /// go out.  A degenerate extent (width or height at most one) thus
    /// never draws a shared edge twice.
    pub fn draw_rect(&mut self, origin: (u16, u16), extent: (u16, u16), color: Color)
        requires
            origin.0 + extent.0 <= 65536,
            origin.1 + extent.1 <= 65536,
        ensures
            old(self).issues(
                *final(self),
                rect_outline_events(origin.0, origin.1, extent.0, extent.1, color),
            ),
            final(self).delay_hist() == old(self).delay_hist(),
    {
        let (x, y) = origin;
        let (width, height) = extent;
        let ghost pre = *self;
        let ghost tall = if height > 1 {
            fill_events(x, (y + height - 1) as u16, width, 1, color)
                + fill_events(x, y, 1, height, color)
        } else {
            Seq::<BusEvent>::empty()
        };
        let ghost wide = if width > 1 {
            fill_events(x, y, width, 1, color)
                + fill_events((x + width - 1) as u16, y, 1, height, color)
        } else {
            Seq::<BusEvent>::empty()
        };

        if height > 1 {
            self.draw_hline((x, y + (height - 1)), width, color);
            let ghost m1 = *self;
            self.draw_vline((x, y), height, color);
            proof {
                Self::lemma_issues_trans(
                    pre,
                    m1,
                    *self,
                    fill_events(x, (y + height - 1) as u16, width, 1, color),
                    fill_events(x, y, 1, height, color),
                );
            }
        } else {
            proof {
                Self::lemma_issues_refl(pre);
            }
        }
        let ghost mid = *self;

        if width > 1 {
            self.draw_hline((x, y), width, color);
            let ghost m2 = *self;
            self.draw_vline((x + (width - 1), y), height, color);
            proof {
                Self::lemma_issues_trans(
                    mid,
                    m2,
                    *self,
                    fill_events(x, y, width, 1, color),
                    fill_events((x + width - 1) as u16, y, 1, height, color),
                );
            }
        } else {
            proof {
                Self::lemma_issues_refl(mid);
            }
        }

        proof {
            Self::lemma_issues_trans(pre, mid, *self, tall, wide);
            assert(tall + wide == rect_outline_events(origin.0, origin.1, extent.0, extent.1, color));
        }
    }

    /// Draw one pixel, as a one-by-one rectangle fill.  Byte for byte on
    /// the bus, this is exactly `fill_rect(p, (1, 1), color)`.
    pub fn draw_pixel(&mut self, p: (u16, u16), color: Color)
        ensures
            old(self).issues(*final(self), fill_events(p.0, p.1, 1, 1, color)),
            final(self).delay_hist() == old(self).delay_hist(),
    {
        self.fill_rect(p, (1, 1), color);
    }

    /// Draw each listed point, in order, as a single pixel.
    pub fn draw_points(&mut self, points: &Vec<(u16, u16)>, color: Color)
        ensures
            old(self).issues(*final(self), points_events(points@, color)),
            final(self).delay_hist() == old(self).delay_hist(),
    {
        let ghost pre = *self;
        proof {
            Self::lemma_issues_refl(pre);
            assert(points@.take(0) =~= Seq::<(u16, u16)>::empty());
            assert(points_events(points@.take(0), color) == Seq::<BusEvent>::empty());
        }
        let mut i: usize = 0;
        while i < points.len()
            invariant
                i <= points@.len(),
                pre.issues(*self, points_events(points@.take(i as int), color)),
                self.delay_hist() == pre.delay_hist(),
            decreases points@.len() - i,
        {
            let p = points[i];
            let ghost cur = *self;
            self.draw_pixel(p, color);
            proof {
                Self::lemma_issues_trans(
                    pre,
                    cur,
                    *self,
                    points_events(points@.take(i as int), color),
                    fill_events(p.0, p.1, 1, 1, color),
                );
                lemma_points_events_push(points@.take(i as int), p, color);
                assert(points@.take(i + 1) =~= points@.take(i as int).push(p));
            }
            i = i + 1;
        }
        proof {
            assert(points@.take(points@.len() as int) =~= points@);
        }
    }

    /// Draw the straight segment from `p1` to `p2`: one pixel per point
    /// of the rasterized line from `p1` (inclusive) to `p2` (exclusive),
    /// then an explicit final pixel at `p2`, so the endpoint is always
    /// drawn even when the stepping's last point differs by rounding.
    /// The rasterized points are empty exactly for coincident endpoints,
    /// begin at `p1` otherwise, and all lie in the endpoints' bounding
    /// box.
    pub fn draw_line(&mut self, p1: (u16, u16), p2: (u16, u16), color: Color)
        ensures
            old(self).issues(*final(self), line_events(p1.0, p1.1, p2.0, p2.1, color)),
            final(self).delay_hist() == old(self).delay_hist(),
            line_points(p1.0, p1.1, p2.0, p2.1).len() == 0 <==> p1 == p2,
            line_points(p1.0, p1.1, p2.0, p2.1).len() > 0 ==> line_points(
                p1.0,
                p1.1,
                p2.0,
                p2.1,
            )[0] == p1,
            forall|i: int|
                0 <= i < line_points(p1.0, p1.1, p2.0, p2.1).len() ==> within_box(
                    #[trigger] line_points(p1.0, p1.1, p2.0, p2.1)[i],
                    p1.0,
                    p1.1,
                    p2.0,
                    p2.1,
                ),
    {
        let ghost pre = *self;
        let points = bresenham_points(p1.0, p1.1, p2.0, p2.1);
        self.draw_points(&points, color);
        let ghost mid = *self;
        self.draw_pixel(p2, color);
        proof {
            Self::lemma_issues_trans(
                pre,
                mid,
                *self,
                points_events(points@, color),
                fill_events(p2.0, p2.1, 1, 1, color),
            );
        }
    }

    /// Draw the outline of the circle centered at `center` with the
    /// given radius, by the midpoint walk: at each step the eight octant
    /// reflections of the current offset go out as single pixels.  A
    /// zero radius degenerates to the single center pixel.
    ///
    /// The center must be at least `radius` away from every panel edge
    /// of the 16-bit coordinate grid, since the outline's pixels reach
    /// exactly `radius` away from it.
    pub fn draw_circle(&mut self, center: (u16, u16), radius: u16, color: Color)
        requires
            radius <= center.0,
            radius <= center.1,
            center.0 + radius <= 65535,
            center.1 + radius <= 65535,
        ensures
            old(self).issues(*final(self), circle_events(center.0, center.1, radius, color)),
            final(self).delay_hist() == old(self).delay_hist(),
    {
        let (x, y) = center;
        if radius == 0 {
            self.draw_pixel((x, y), color);
            proof {
                assert(circle_events(center.0, center.1, 0, color)
                    == fill_events(center.0, center.1, 1, 1, color));
            }
            return;
        }
        let mut dx: i64 = radius as i64;
        let mut dy: i64 = 0;
        let mut err: i64 = 0;

        let ghost pre = *self;
        let ghost mut taken: Seq<(int, int)> = Seq::empty();
        proof {
            Self::lemma_issues_refl(pre);
            assert(steps_events(x, y, taken, color) == Seq::<BusEvent>::empty());
        }

        while dx >= dy
            invariant
                radius <= x,
                radius <= y,
                x + radius <= 65535,
                y + radius <= 65535,
                -1 <= dx <= radius,
                0 <= dy <= radius + 1,
                -((dy + 1) * 262148) <= err <= (dy + 1) * 262148,
                circle_steps(radius as int, 0, 0)
                    == taken + circle_steps(dx as int, dy as int, err as int),
                pre.issues(*self, steps_events(x, y, taken, color)),
                self.delay_hist() == pre.delay_hist(),
            decreases dx + 2 - dy,
        {
            let ghost gdx = dx as int;
            let ghost gdy = dy as int;
            let ghost gerr = err as int;
            let ghost taken0 = taken;
            let ghost cur = *self;

            let pdx = dx as u16;
            let pdy = dy as u16;
            let x_plus_dx = x + pdx;
            let x_plus_dy = x + pdy;
            let x_minus_dx = x - pdx;
            let x_minus_dy = x - pdy;
            let y_plus_dy = y + pdy;
            let y_plus_dx = y + pdx;
            let y_minus_dy = y - pdy;
            let y_minus_dx = y - pdx;
            let reflections: Vec<(u16, u16)> = vec![
                (x_plus_dx, y_plus_dy),
                (x_plus_dy, y_plus_dx),
                (x_minus_dx, y_plus_dy),
                (x_minus_dy, y_plus_dx),
                (x_plus_dx, y_minus_dy),
                (x_plus_dy, y_minus_dx),
                (x_minus_dx, y_minus_dy),
                (x_minus_dy, y_minus_dx),
            ];
            proof {
                assert(reflections@ =~= octant_points(x, y, gdx, gdy));
            }
            self.draw_points(&reflections, color);

            dy = dy + 1;
            err = err + (1 + 2 * dy);

            if 2 * (err - dx) + 1 > 0 {
                dx = dx - 1;
                err = err + (1 - 2 * dx);
            }

            proof {
                assert(circle_steps(gdx, gdy, gerr)
                    == seq![(gdx, gdy)] + circle_steps(dx as int, dy as int, err as int));
                taken = taken0.push((gdx, gdy));
                assert(taken + circle_steps(dx as int, dy as int, err as int)
                    =~= taken0 + circle_steps(gdx, gdy, gerr));
                lemma_steps_events_push(x, y, taken0, (gdx, gdy), color);
                Self::lemma_issues_trans(
                    pre,
                    cur,
                    *self,
                    steps_events(x, y, taken0, color),
                    points_events(octant_points(x, y, gdx, gdy), color),
                );
            }
        }

        proof {
            assert(circle_steps(dx as int, dy as int, err as int) == Seq::<(int, int)>::empty());
            assert(circle_steps(radius as int, 0, 0) =~= taken);
        }
    }

    /// Circle filling is outside this driver's baseline scope: the
    /// operation deliberately issues no bus traffic.
    pub fn fill_circle(&mut self, center: (u16, u16), radius: u16, color: Color)
        ensures
            old(self).issues(*final(self), Seq::<BusEvent>::empty()),
            final(self).delay_hist() == old(self).delay_hist(),
    {
        let _unused: ((u16, u16), u16, Color) = (center, radius, color);
        proof {
            Self::lemma_issues_refl(*self);
        }
    }

    /// Text rendering is outside this driver's baseline scope: the
    /// operation deliberately issues no bus traffic.
    pub fn draw_text(&mut self, p: (u16, u16), size: u16, text: &str, color: Color)
        ensures
            old(self).issues(*final(self), Seq::<BusEvent>::empty()),
            final(self).delay_hist() == old(self).delay_hist(),
    {
        let _unused: ((u16, u16), u16, &str, Color) = (p, size, text, color);
        proof {
            Self::lemma_issues_refl(*self);
        }
    }
}

/// Whether point `p` lies in the axis-aligned box spanned by the two
/// endpoints, inclusive.
pub open spec fn within_box(p: (u16, u16), x1: u16, y1: u16, x2: u16, y2: u16) -> bool {
    (if x1 <= x2 {
        x1 <= p.0 <= x2
    } else {
        x2 <= p.0 <= x1
    }) && (if y1 <= y2 {
        y1 <= p.1 <= y2
    } else {
        y2 <= p.1 <= y1
    })
}

/// The points of the rasterized straight segment from (`x1`, `y1`)
/// inclusive to (`x2`, `y2`) exclusive, in stepping order, reduced to the
/// driver's 16-bit pixel coordinates.
pub uninterp spec fn line_points(x1: u16, y1: u16, x2: u16, y2: u16) -> Seq<(u16, u16)>;

/// Relies on `bresenham::Bresenham`: an iterator over the points of the
/// rasterized segment from the start (included) to the end (excluded);
/// the points depend on the two endpoints alone.  Its source shows that
/// coincident endpoints yield no point, that the first yielded point is
/// the start, and that every point stays in the endpoints' bounding box
/// (the octant transform walks the first coordinate from start to end
/// and steps the second monotonically towards its end).  Each point is
/// reduced to 16-bit pixel coordinates exactly as the drawing loop
/// addresses the panel; within the bounding box of two 16-bit endpoints
/// that cast is lossless.
#[verifier::external_body]
fn bresenham_points(x1: u16, y1: u16, x2: u16, y2: u16) -> (r: Vec<(u16, u16)>)
    ensures
        r@ == line_points(x1, y1, x2, y2),
        r@.len() == 0 <==> (x1 == x2 && y1 == y2),
        r@.len() > 0 ==> r@[0] == (x1, y1),
        forall|i: int| 0 <= i < r@.len() ==> within_box(#[trigger] r@[i], x1, y1, x2, y2),
{
    bresenham::Bresenham::new((x1 as isize, y1 as isize), (x2 as isize, y2 as isize))
        .map(|p: (isize, isize)| (p.0 as u16, p.1 as u16))
        .collect()
}

/// The bus traffic of drawing each point of `ps`, in order, as a single
/// pixel.
pub open spec fn points_events(ps: Seq<(u16, u16)>, color: u16) -> Seq<BusEvent>
    decreases ps.len(),
{
    if ps.len() == 0 {
        Seq::empty()
    } else {
        fill_events(ps[0].0, ps[0].1, 1, 1, color) + points_events(ps.drop_first(), color)
    }
}

/// Appending a point to a list appends its pixel traffic to the list's.
pub proof fn lemma_points_events_push(ps: Seq<(u16, u16)>, p: (u16, u16), color: u16)
    ensures
        points_events(ps.push(p), color)
            == points_events(ps, color) + fill_events(p.0, p.1, 1, 1, color),
    decreases ps.len(),
{
    let tail = fill_events(p.0, p.1, 1, 1, color);
    if ps.len() == 0 {
        assert(ps.push(p)[0] == p);
        assert(ps.push(p).drop_first() =~= Seq::<(u16, u16)>::empty());
        assert(points_events(ps.push(p), color)
            == tail + points_events(Seq::<(u16, u16)>::empty(), color));
        Seq::<BusEvent>::add_empty_right(tail, points_events(Seq::<(u16, u16)>::empty(), color));
        Seq::<BusEvent>::add_empty_left(points_events(ps, color), tail);
    } else {
        let qs = ps.drop_first();
        let head = fill_events(ps[0].0, ps[0].1, 1, 1, color);
        assert(ps.push(p).drop_first() =~= qs.push(p));
        lemma_points_events_push(qs, p, color);
        assert(ps.push(p)[0] == ps[0]);
        assert(points_events(ps.push(p), color) == head + points_events(qs.push(p), color));
        vstd::seq_lib::lemma_concat_associative(head, points_events(qs, color), tail);
        assert(points_events(ps, color) == head + points_events(qs, color));
    }
}

/// The bus traffic of drawing the segment from (`x1`, `y1`) to
/// (`x2`, `y2`): the rasterized points in stepping order, then the
/// explicit endpoint pixel.
pub open spec fn line_events(x1: u16, y1: u16, x2: u16, y2: u16, color: u16) -> Seq<BusEvent> {
    points_events(line_points(x1, y1, x2, y2), color) + fill_events(x2, y2, 1, 1, color)
}

/// The offsets visited by the midpoint circle walk from offset
/// (`dx`, `dy`) with decision variable `err`: one entry per step while
/// `dx` has not fallen below `dy`.  Each step increments `dy`, adds
/// `1 + 2 * dy` to the error term, and, when `2 * (err - dx) + 1` is
/// positive, decrements `dx` and adjusts the error term by `1 - 2 * dx`.
pub open spec fn circle_steps(dx: int, dy: int, err: int) -> Seq<(int, int)>
    decreases dx + 2 - dy,
{
    if dx < dy {
        Seq::empty()
    } else {
        let dy2 = dy + 1;
        let e2 = err + 1 + 2 * dy2;
        if 2 * (e2 - dx) + 1 > 0 {
            seq![(dx, dy)] + circle_steps(dx - 1, dy2, e2 + 1 - 2 * (dx - 1))
        } else {
            seq![(dx, dy)] + circle_steps(dx, dy2, e2)
        }
    }
}

/// The eight octant reflections of offset (`dx`, `dy`) about the center
/// (`x`, `y`), in emission order.
pub open spec fn octant_points(x: u16, y: u16, dx: int, dy: int) -> Seq<(u16, u16)> {
    let x_plus_dx = (x + dx) as u16;
    let x_plus_dy = (x + dy) as u16;
    let x_minus_dx = (x - dx) as u16;
    let x_minus_dy = (x - dy) as u16;
    let y_plus_dy = (y + dy) as u16;
    let y_plus_dx = (y + dx) as u16;
    let y_minus_dy = (y - dy) as u16;
    let y_minus_dx = (y - dx) as u16;
    seq![
        (x_plus_dx, y_plus_dy),
        (x_plus_dy, y_plus_dx),
        (x_minus_dx, y_plus_dy),
        (x_minus_dy, y_plus_dx),
        (x_plus_dx, y_minus_dy),
        (x_plus_dy, y_minus_dx),
        (x_minus_dx, y_minus_dy),
        (x_minus_dy, y_minus_dx),
    ]
}

/// The bus traffic of drawing, for each walk step in order, the eight
/// octant reflections of its offset as single pixels.
pub open spec fn steps_events(x: u16, y: u16, steps: Seq<(int, int)>, color: u16) -> Seq<BusEvent>
    decreases steps.len(),
{
    if steps.len() == 0 {
        Seq::empty()
    } else {
        points_events(octant_points(x, y, steps[0].0, steps[0].1), color)
            + steps_events(x, y, steps.drop_first(), color)
    }
}

/// Appending a walk step appends its octant traffic to the walk's.
pub proof fn lemma_steps_events_push(
    x: u16,
    y: u16,
    steps: Seq<(int, int)>,
    s: (int, int),
    color: u16,
)
    ensures
        steps_events(x, y, steps.push(s), color)
            == steps_events(x, y, steps, color)
                + points_events(octant_points(x, y, s.0, s.1), color),
    decreases steps.len(),
{
    let tail = points_events(octant_points(x, y, s.0, s.1), color);
    if steps.len() == 0 {
        assert(steps.push(s)[0] == s);
        assert(steps.push(s).drop_first() =~= Seq::<(int, int)>::empty());
        assert(steps_events(x, y, steps.push(s), color)
            == tail + steps_events(x, y, Seq::<(int, int)>::empty(), color));
        Seq::<BusEvent>::add_empty_right(tail, steps_events(x, y, Seq::<(int, int)>::empty(), color));
        Seq::<BusEvent>::add_empty_left(steps_events(x, y, steps, color), tail);
    } else {
        let qs = steps.drop_first();
        let head = points_events(octant_points(x, y, steps[0].0, steps[0].1), color);
        assert(steps.push(s).drop_first() =~= qs.push(s));
        lemma_steps_events_push(x, y, qs, s, color);
        assert(steps.push(s)[0] == steps[0]);
        assert(steps_events(x, y, steps.push(s), color)
            == head + steps_events(x, y, qs.push(s), color));
        vstd::seq_lib::lemma_concat_associative(head, steps_events(x, y, qs, color), tail);
        assert(steps_events(x, y, steps, color) == head + steps_events(x, y, qs, color));
    }
}

/// The bus traffic of the circle outline centered at (`x`, `y`) with the
/// given radius: the single center pixel for a zero radius, otherwise
/// the full midpoint walk starting at offset (`radius`, 0) with a zero
/// error term.
pub open spec fn circle_events(x: u16, y: u16, radius: u16, color: u16) -> Seq<BusEvent> {
    if radius == 0 {
        fill_events(x, y, 1, 1, color)
    } else {
        steps_events(x, y, circle_steps(radius as int, 0, 0), color)
    }
}

/// A radius-zero outline emits the single center pixel only: its whole
/// traffic is one pixel write at the center.
pub proof fn lemma_radius_zero_circle(x: u16, y: u16, color: u16)
    ensures
        circle_events(x, y, 0, color) == fill_events(x, y, 1, 1, color),
{
}

/// The bus traffic of filling the rectangle with origin (`x`, `y`) and
/// extent (`w`, `h`): nothing for a degenerate extent; otherwise one
/// window set covering exactly the rectangle, one memory-write opcode,
/// and `w * h` pixel words of the color.
pub open spec fn fill_events(x: u16, y: u16, w: u16, h: u16, color: u16) -> Seq<BusEvent> {
    if w == 0 || h == 0 {
        Seq::empty()
    } else {
        window_events(x, y, (x + w - 1) as u16, (y + h - 1) as u16)
            + cmd_frame(Command::MemoryWrite.opcode_spec())
            + pixel_run(color, (w * h) as nat)
    }
}

/// A non-degenerate fill issues exactly one window set covering the
/// rectangle from its origin to its far corner inclusive, then exactly
/// one memory-write opcode, then exactly `w * h` pixel words, every one
/// of them the frame of the same color.
pub proof fn lemma_fill_events_shape(x: u16, y: u16, w: u16, h: u16, color: u16)
    requires
        1 <= w,
        1 <= h,
        x + w <= 65536,
        y + h <= 65536,
    ensures
        fill_events(x, y, w, h, color) == window_events(x, y, (x + w - 1) as u16, (y + h - 1) as u16)
            + cmd_frame(Command::MemoryWrite.opcode_spec())
            + pixel_run(color, (w * h) as nat),
        pixel_run(color, (w * h) as nat).len() == 5 * (w * h),
        forall|k: int|
            0 <= k < w * h ==> #[trigger] pixel_run(color, (w * h) as nat).subrange(
                5 * k,
                5 * k + 5,
            ) == word_frame(color),
{
    crate::bus::lemma_pixel_run_shape(color, (w * h) as nat);
}

/// The bus traffic of a rectangle outline: bottom and left edges when
/// the height exceeds one, then top and right edges when the width
/// exceeds one.
pub open spec fn rect_outline_events(x: u16, y: u16, w: u16, h: u16, color: u16) -> Seq<BusEvent> {
    (if h > 1 {
        fill_events(x, (y + h - 1) as u16, w, 1, color) + fill_events(x, y, 1, h, color)
    } else {
        Seq::empty()
    }) + (if w > 1 {
        fill_events(x, y, w, 1, color) + fill_events((x + w - 1) as u16, y, 1, h, color)
    } else {
        Seq::empty()
    })
}

/// The bus traffic of programming the window from (`sx`, `sy`) to
/// (`ex`, `ey`), both corners inclusive.
pub open spec fn window_events(sx: u16, sy: u16, ex: u16, ey: u16) -> Seq<BusEvent> {
    cmd_frame(Command::ColumnAddressSet.opcode_spec())
        + word_frame(sx)
        + word_frame(ex)
        + cmd_frame(Command::PageAddressSet.opcode_spec())
        + word_frame(sy)
        + word_frame(ey)
}

/// The fixed one-shot initialization traffic, in order: chip enable
/// asserted, software reset, a 500 ms pause, sleep-out, a 5 ms pause,
/// pixel format set to 16 bits per pixel, gamma curve three, gamma fine
/// adjustment enabled, normal mode on, and the display function set with
/// its two fixed configuration bytes.
pub open spec fn init_events() -> Seq<BusEvent> {
    seq![BusEvent::CsxLow]
        + cmd_frame(Command::SoftwareReset.opcode_spec())
        + seq![BusEvent::Pause(500)]
        + cmd_frame(Command::SleepOut.opcode_spec())
        + seq![BusEvent::Pause(5)]
        + cmd_frame(Command::InterfacePixelFormat.opcode_spec())
        + data_frame(PixelFormat::Bpp16.bits_spec())
        + cmd_frame(Command::GammaSet.opcode_spec())
        + data_frame(GammaCurve::Curve3.bits_spec())
        + cmd_frame(Command::GamRSel.opcode_spec())
        + data_frame(1)
        + cmd_frame(Command::NormalModeOn.opcode_spec())
        + cmd_frame(Command::DisplayFunctionSet5.opcode_spec())
        + data_frame(0b11111111)
        + data_frame(0b00000000)
}

} // verus!
