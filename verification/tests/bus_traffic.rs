//! Byte-for-byte checks of the traffic every driver operation places on
//! the bus, observed through recording pin and serial stand-ins.

use std::cell::RefCell;
use std::rc::Rc;

use ili9163c::command::{Command, GammaCurve, PixelFormat};
use ili9163c::driver::Driver;
use ili9163c::gpio::Pin;
use ili9163c::spi::Serial;
use ili9163c::DummyDelay;

#[derive(Clone, Debug, PartialEq, Eq)]
enum Wire {
    Dcx(bool),
    Csx(bool),
    Byte(u8),
}

type WireLog = Rc<RefCell<Vec<Wire>>>;

struct RecDcx(WireLog);

impl Pin for RecDcx {
    fn hist(&self) -> vstd::prelude::Seq<bool> {
        unreachable!()
    }

    fn high(&mut self) {
        self.0.borrow_mut().push(Wire::Dcx(true));
    }

    fn low(&mut self) {
        self.0.borrow_mut().push(Wire::Dcx(false));
    }
}

struct RecCsx(WireLog);

impl Pin for RecCsx {
    fn hist(&self) -> vstd::prelude::Seq<bool> {
        unreachable!()
    }

    fn high(&mut self) {
        self.0.borrow_mut().push(Wire::Csx(true));
    }

    fn low(&mut self) {
        self.0.borrow_mut().push(Wire::Csx(false));
    }
}

struct RecSerial(WireLog);

impl Serial for RecSerial {
    fn hist(&self) -> vstd::prelude::Seq<u8> {
        unreachable!()
    }

    fn write(&mut self, data: u8) {
        self.0.borrow_mut().push(Wire::Byte(data));
    }
}

fn raw_recording_driver() -> (Driver<RecSerial, RecDcx, RecCsx, DummyDelay>, WireLog) {
    let log: WireLog = Rc::new(RefCell::new(Vec::new()));
    let driver = Driver::new(
        RecSerial(log.clone()),
        RecDcx(log.clone()),
        RecCsx(log.clone()),
        DummyDelay::new(),
    );
    (driver, log)
}

/// A recording driver whose initialization traffic has been discarded.
fn recording_driver() -> (Driver<RecSerial, RecDcx, RecCsx, DummyDelay>, WireLog) {
    let (driver, log) = raw_recording_driver();
    log.borrow_mut().clear();
    (driver, log)
}

fn taken(log: &WireLog) -> Vec<Wire> {
    log.borrow_mut().drain(..).collect()
}

fn cmd_frame(op: u8) -> Vec<Wire> {
    vec![Wire::Dcx(false), Wire::Csx(false), Wire::Byte(op), Wire::Csx(true)]
}

fn data_frame(b: u8) -> Vec<Wire> {
    vec![Wire::Dcx(true), Wire::Csx(false), Wire::Byte(b), Wire::Csx(true)]
}

fn word_frame(w: u16) -> Vec<Wire> {
    vec![
        Wire::Dcx(true),
        Wire::Csx(false),
        Wire::Byte((w >> 8) as u8),
        Wire::Byte((w & 0xFF) as u8),
        Wire::Csx(true),
    ]
}

fn window(sx: u16, sy: u16, ex: u16, ey: u16) -> Vec<Wire> {
    let mut v = cmd_frame(0x2A);
    v.extend(word_frame(sx));
    v.extend(word_frame(ex));
    v.extend(cmd_frame(0x2B));
    v.extend(word_frame(sy));
    v.extend(word_frame(ey));
    v
}

fn fill(x: u16, y: u16, w: u16, h: u16, color: u16) -> Vec<Wire> {
    let mut v = window(x, y, x + w - 1, y + h - 1);
    v.extend(cmd_frame(0x2C));
    let count: u32 = (w as u32) * (h as u32);
    for _ in 0..count {
        v.extend(word_frame(color));
    }
    v
}

#[test]
fn init_sequence_opcode_order() {
    let (_driver, log) = raw_recording_driver();
    let mut expected: Vec<Wire> = vec![Wire::Csx(false)];
    expected.extend(cmd_frame(0x01)); // software reset, then the 500 ms pause
    expected.extend(cmd_frame(0x11)); // sleep out, then the 5 ms pause
    expected.extend(cmd_frame(0x3A)); // interface pixel format...
    expected.extend(data_frame(0x05)); // ...16 bits per pixel
    expected.extend(cmd_frame(0x26)); // gamma set...
    expected.extend(data_frame(0x04)); // ...curve 3
    expected.extend(cmd_frame(0xF2)); // gamma adjustment...
    expected.extend(data_frame(0x01)); // ...enabled
    expected.extend(cmd_frame(0x13)); // normal mode on
    expected.extend(cmd_frame(0xB6)); // display function set...
    expected.extend(data_frame(0xFF));
    expected.extend(data_frame(0x00));
    assert_eq!(taken(&log), expected);
}

#[test]
fn write_cmd_frames_the_opcode() {
    let (mut driver, log) = recording_driver();
    driver.write_cmd(Command::Nop);
    assert_eq!(taken(&log), cmd_frame(0x00));
    driver.write_cmd(Command::DisplayOn);
    assert_eq!(taken(&log), cmd_frame(0x29));
}

#[test]
fn write_data_frames_the_byte() {
    let (mut driver, log) = recording_driver();
    driver.write_data(0xAB);
    assert_eq!(taken(&log), data_frame(0xAB));
}

#[test]
fn write_data_16_sends_msb_first() {
    let (mut driver, log) = recording_driver();
    driver.write_data_16(0x1234);
    assert_eq!(taken(&log), word_frame(0x1234));
    driver.write_pixel(0xF00F);
    assert_eq!(taken(&log), word_frame(0xF00F));
}

#[test]
fn pixel_format_and_gamma_parameter_bytes() {
    let (mut driver, log) = recording_driver();

    driver.set_pixel_format(PixelFormat::Bpp16);
    let mut expected = cmd_frame(0x3A);
    expected.extend(data_frame(0b0101));
    assert_eq!(taken(&log), expected);

    driver.set_pixel_format(PixelFormat::Bpp18_1);
    let mut expected = cmd_frame(0x3A);
    expected.extend(data_frame(0b0110));
    assert_eq!(taken(&log), expected);

    driver.set_gamma_curve(GammaCurve::Curve3);
    let mut expected = cmd_frame(0x26);
    expected.extend(data_frame(4));
    assert_eq!(taken(&log), expected);

    driver.set_gamma_adjustment(false);
    let mut expected = cmd_frame(0xF2);
    expected.extend(data_frame(0));
    assert_eq!(taken(&log), expected);
}

#[test]
fn set_window_sends_columns_then_pages() {
    let (mut driver, log) = recording_driver();
    driver.set_window((1, 2), (3, 4));
    assert_eq!(taken(&log), window(1, 2, 3, 4));
}

#[test]
fn fill_rect_one_window_one_write_all_pixels() {
    let (mut driver, log) = recording_driver();
    driver.fill_rect((2, 3), (2, 2), 0xABCD);
    let got = taken(&log);
    assert_eq!(got, fill(2, 3, 2, 2, 0xABCD));
    // exactly 2 * 2 pixel words follow the single memory-write opcode
    let pixel_bytes: usize = got.iter().skip(window(2, 3, 3, 4).len() + 4).filter(|e| matches!(e, Wire::Byte(_))).count();
    assert_eq!(pixel_bytes, 2 * 2 * 2);
}

#[test]
fn fill_rect_degenerate_extent_is_silent() {
    let (mut driver, log) = recording_driver();
    driver.fill_rect((5, 5), (0, 3), 0xFFFF);
    driver.fill_rect((5, 5), (3, 0), 0xFFFF);
    driver.fill_rect((5, 5), (0, 0), 0xFFFF);
    assert_eq!(taken(&log), Vec::<Wire>::new());
}

#[test]
fn draw_pixel_matches_unit_fill_rect() {
    let (mut a, log_a) = recording_driver();
    let (mut b, log_b) = recording_driver();
    a.draw_pixel((7, 9), 0x1234);
    b.fill_rect((7, 9), (1, 1), 0x1234);
    assert_eq!(taken(&log_a), taken(&log_b));
}

#[test]
fn hline_and_vline_are_single_row_and_column_fills() {
    let (mut driver, log) = recording_driver();
    driver.draw_hline((3, 4), 5, 0x0F0F);
    assert_eq!(taken(&log), fill(3, 4, 5, 1, 0x0F0F));
    driver.draw_vline((3, 4), 5, 0x0F0F);
    assert_eq!(taken(&log), fill(3, 4, 1, 5, 0x0F0F));
}

#[test]
fn rect_outline_edges_in_order() {
    let (mut driver, log) = recording_driver();
    driver.draw_rect((1, 1), (3, 2), 0x2222);
    let mut expected = fill(1, 2, 3, 1, 0x2222); // bottom edge
    expected.extend(fill(1, 1, 1, 2, 0x2222)); // left edge
    expected.extend(fill(1, 1, 3, 1, 0x2222)); // top edge
    expected.extend(fill(3, 1, 1, 2, 0x2222)); // right edge
    assert_eq!(taken(&log), expected);
}

#[test]
fn rect_outline_degenerate_extents() {
    let (mut driver, log) = recording_driver();
    // a one-by-one outline has no edge longer than one: nothing goes out
    driver.draw_rect((5, 5), (1, 1), 0x3333);
    assert_eq!(taken(&log), Vec::<Wire>::new());
    // a one-row outline draws its top edge and right edge only, once
    driver.draw_rect((5, 5), (4, 1), 0x3333);
    let mut expected = fill(5, 5, 4, 1, 0x3333);
    expected.extend(fill(8, 5, 1, 1, 0x3333));
    assert_eq!(taken(&log), expected);
}

#[test]
fn horizontal_line_emits_all_four_pixels() {
    let (mut driver, log) = recording_driver();
    driver.draw_line((0, 0), (3, 0), 0x0001);
    let mut expected = fill(0, 0, 1, 1, 0x0001);
    expected.extend(fill(1, 0, 1, 1, 0x0001));
    expected.extend(fill(2, 0, 1, 1, 0x0001));
    expected.extend(fill(3, 0, 1, 1, 0x0001));
    assert_eq!(taken(&log), expected);
}

#[test]
fn diagonal_line_steps_and_endpoint() {
    let (mut driver, log) = recording_driver();
    driver.draw_line((0, 1), (6, 4), 0x0001);
    let steps: [(u16, u16); 7] = [(0, 1), (1, 1), (2, 2), (3, 2), (4, 3), (5, 3), (6, 4)];
    let mut expected: Vec<Wire> = Vec::new();
    for (px, py) in steps {
        expected.extend(fill(px, py, 1, 1, 0x0001));
    }
    assert_eq!(taken(&log), expected);
}

#[test]
fn circle_radius_zero_emits_center_only() {
    let (mut driver, log) = recording_driver();
    driver.draw_circle((10, 10), 0, 0x0001);
    let got = taken(&log);
    // the radius-zero boundary: exactly one pixel write, at the center
    assert_eq!(got, fill(10, 10, 1, 1, 0x0001));
}

#[test]
fn circle_radius_one_reflections() {
    let (mut driver, log) = recording_driver();
    driver.draw_circle((10, 10), 1, 0x0001);
    let points: [(u16, u16); 8] = [
        (11, 10),
        (10, 11),
        (9, 10),
        (10, 11),
        (11, 10),
        (10, 9),
        (9, 10),
        (10, 9),
    ];
    let mut expected: Vec<Wire> = Vec::new();
    for (px, py) in points {
        expected.extend(fill(px, py, 1, 1, 0x0001));
    }
    assert_eq!(taken(&log), expected);
}

#[test]
fn clear_screen_covers_the_whole_panel() {
    let (mut driver, log) = recording_driver();
    driver.clear_screen(0x0000);
    let got = taken(&log);
    let mut expected = window(0, 0, 127, 127);
    expected.extend(cmd_frame(0x2C));
    for _ in 0..16384u32 {
        expected.extend(word_frame(0x0000));
    }
    assert_eq!(got.len(), expected.len());
    assert_eq!(got, expected);
}

#[test]
fn stub_operations_are_silent() {
    let (mut driver, log) = recording_driver();
    driver.fill_circle((20, 20), 5, 0x4444);
    driver.draw_text((0, 0), 1, "hello", 0x4444);
    assert_eq!(taken(&log), Vec::<Wire>::new());
}
