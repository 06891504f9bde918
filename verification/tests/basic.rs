//! A bench-style smoke test over the logging transport, the color codec
//! checks, and the bit-banged transport check.

use std::cell::RefCell;
use std::rc::Rc;

use ili9163c::driver::{parse_color, Driver};
use ili9163c::gpio::{DebugPin, DummyPin, Pin};
use ili9163c::spi::{BitBangingSerial, DebugSerial, DummySerial};
use ili9163c::DummyDelay;

#[test]
fn basic() {
    let csx = DebugPin::new("CSX");
    let dcx = DebugPin::new("D/CX");

    let spi = DebugSerial::new();

    let mut driver = Driver::new(spi, dcx, csx, DummyDelay::new());

    driver.clear_screen(0x00);
    driver.draw_line((0, 0), (20, 10), 0x01);
    driver.draw_circle((50, 50), 20, 0x01);
}

#[test]
fn dummy_transport_smoke() {
    let mut driver = Driver::new(DummySerial::new(), DummyPin::new(), DummyPin::new(), DummyDelay::new());
    driver.draw_rect((0, 0), (10, 10), 0x5555);
    driver.draw_pixel((3, 3), 0x1111);
    driver.fill_circle((5, 5), 2, 0x1111);
    driver.draw_text((0, 0), 1, "hi", 0x2222);
}

#[test]
fn parse_color_black_white_and_primaries() {
    assert_eq!(parse_color(0x00, 0x00, 0x00), 0x0000);
    assert_eq!(parse_color(0xFF, 0xFF, 0xFF), 0xFFFF);
    assert_eq!(parse_color(0xFF, 0x00, 0x00), 0xF800);
    assert_eq!(parse_color(0x00, 0xFF, 0x00), 0x07E0);
    assert_eq!(parse_color(0x00, 0x00, 0xFF), 0x001F);
}

#[test]
fn parse_color_truncates_low_bits() {
    // bits below each channel's kept width vanish
    assert_eq!(parse_color(0x07, 0x03, 0x07), 0x0000);
    assert_eq!(parse_color(0x08, 0x04, 0x08), 0x0821);
    // adding only low bits changes nothing
    assert_eq!(parse_color(0x0F, 0x07, 0x0F), 0x0821);
}

#[test]
fn parse_color_matches_packing_formula() {
    let samples: [u8; 6] = [0x00, 0x01, 0x3F, 0x40, 0xA5, 0xFF];
    for &r in &samples {
        for &g in &samples {
            for &b in &samples {
                let expected: u16 = (((r & 0xF8) as u16) << 8)
                    | (((g & 0xFC) as u16) << 3)
                    | (((b & 0xF8) as u16) >> 3);
                assert_eq!(parse_color(r, g, b), expected);
            }
        }
    }
}

#[derive(Clone, Debug, PartialEq, Eq)]
enum Flick {
    Sck(bool),
    Mosi(bool),
}

type FlickLog = Rc<RefCell<Vec<Flick>>>;

struct SckPin(FlickLog);

impl Pin for SckPin {
    fn hist(&self) -> vstd::prelude::Seq<bool> {
        unreachable!()
    }

    fn high(&mut self) {
        self.0.borrow_mut().push(Flick::Sck(true));
    }

    fn low(&mut self) {
        self.0.borrow_mut().push(Flick::Sck(false));
    }
}

struct MosiPin(FlickLog);

impl Pin for MosiPin {
    fn hist(&self) -> vstd::prelude::Seq<bool> {
        unreachable!()
    }

    fn high(&mut self) {
        self.0.borrow_mut().push(Flick::Mosi(true));
    }

    fn low(&mut self) {
        self.0.borrow_mut().push(Flick::Mosi(false));
    }
}

#[test]
fn bit_banging_sends_msb_first_with_clock_brackets() {
    let log: FlickLog = Rc::new(RefCell::new(Vec::new()));
    let mut serial = BitBangingSerial::new(SckPin(log.clone()), MosiPin(log.clone()));
    ili9163c::spi::Serial::write(&mut serial, 0b10110010);
    let bits: [bool; 8] = [true, false, true, true, false, false, true, false];
    let mut expected: Vec<Flick> = Vec::new();
    for &bit in &bits {
        expected.push(Flick::Sck(false));
        expected.push(Flick::Mosi(bit));
        expected.push(Flick::Sck(true));
    }
    assert_eq!(log.borrow().clone(), expected);
}

#[test]
fn bit_banging_round_trips_every_sampled_byte() {
    let samples: [u8; 6] = [0x00, 0x01, 0x80, 0xA5, 0xB2, 0xFF];
    for &byte in &samples {
        let log: FlickLog = Rc::new(RefCell::new(Vec::new()));
        let mut serial = BitBangingSerial::new(SckPin(log.clone()), MosiPin(log.clone()));
        ili9163c::spi::Serial::write(&mut serial, byte);
        let mut rebuilt: u8 = 0;
        for ev in log.borrow().iter() {
            if let Flick::Mosi(bit) = ev {
                rebuilt = (rebuilt << 1) | (*bit as u8);
            }
        }
        assert_eq!(rebuilt, byte);
    }
}
