//! The byte-level serial link.
//!
//! The driver writes every command and data byte through the [`Serial`]
//! capability.  Any transport qualifies: a hardware port, a no-op stub, a
//! logging stub, or the bit-banged emulation over two [`Pin`]s.  Each
//! link carries a specification-level history of the bytes written to it,
//! so that a caller's contract can state exactly what was handed to the
//! wire.

use std::io::Write;
use vstd::prelude::*;

use crate::gpio::Pin;

verus! {

/// A byte sink: transmit one byte on the shared data wire.
pub trait Serial {
    /// The bytes written to this link, in order.
    spec fn hist(&self) -> Seq<u8>;

    /// Transmit one byte.
    fn write(&mut self, data: u8)
        ensures
            final(self).hist() == old(self).hist().push(data),
    ;
}

/// A link connected to nothing: every byte is discarded after entering
/// the history.
pub struct DummySerial {
    sent: Ghost<Seq<u8>>,
}

impl DummySerial {
    /// A fresh unconnected link with an empty history.
    pub fn new() -> (r: Self)
        ensures
            r.hist() == Seq::<u8>::empty(),
    {
        DummySerial { sent: Ghost(Seq::empty()) }
    }
}

impl Serial for DummySerial {
    closed spec fn hist(&self) -> Seq<u8> {
        self.sent@
    }

    fn write(&mut self, data: u8) {
        self.sent = Ghost(self.sent@.push(data));
    }
}

/// Relies on `std::io::stdout`: prints one `"SPI: <byte in binary>"` line
/// on standard output for a logged byte transfer.
#[verifier::external_body]
fn emit_serial_byte(data: u8) {
    let _ = writeln!(std::io::stdout(), "SPI: {:08b}", data);
}

/// A link that logs every byte to standard output in binary notation.
pub struct DebugSerial {
    sent: Ghost<Seq<u8>>,
}

impl DebugSerial {
    /// A fresh logging link with an empty history.
    pub fn new() -> (r: Self)
        ensures
            r.hist() == Seq::<u8>::empty(),
    {
        DebugSerial { sent: Ghost(Seq::empty()) }
    }
}

impl Serial for DebugSerial {
    closed spec fn hist(&self) -> Seq<u8> {
        self.sent@
    }

    fn write(&mut self, data: u8) {
        emit_serial_byte(data);
        self.sent = Ghost(self.sent@.push(data));
    }
}

/// One elementary action of the bit-banged link on its two lines.
pub enum BitEvent {
    /// The clock line was driven to this level.
    Sck(bool),
    /// The data line was driven to this level.
    Mosi(bool),
}

/// The line actions of transmitting one bit: clock low, data line set to
/// the bit, clock high to latch it.
pub open spec fn bit_frame(bit: bool) -> Seq<BitEvent> {
    seq![BitEvent::Sck(false), BitEvent::Mosi(bit), BitEvent::Sck(true)]
}

/// The eight bits of a byte, most significant first.
pub open spec fn bits_of(data: u8) -> Seq<bool> {
    let b7 = (data & 0x80) != 0;
    let b6 = (data & 0x40) != 0;
    let b5 = (data & 0x20) != 0;
    let b4 = (data & 0x10) != 0;
    let b3 = (data & 0x08) != 0;
    let b2 = (data & 0x04) != 0;
    let b1 = (data & 0x02) != 0;
    let b0 = (data & 0x01) != 0;
    seq![b7, b6, b5, b4, b3, b2, b1, b0]
}

/// The line actions of transmitting one byte: one bit frame per bit,
/// most significant first.
pub open spec fn byte_events(data: u8) -> Seq<BitEvent> {
    bit_frame(bits_of(data)[0]) + bit_frame(bits_of(data)[1]) + bit_frame(bits_of(data)[2])
        + bit_frame(bits_of(data)[3]) + bit_frame(bits_of(data)[4]) + bit_frame(bits_of(data)[5])
        + bit_frame(bits_of(data)[6]) + bit_frame(bits_of(data)[7])
}

/// The clock line's levels over one byte: eight low-high pulses.
pub open spec fn byte_clock() -> Seq<bool> {
    seq![
        false,
        true,
        false,
        true,
        false,
        true,
        false,
        true,
        false,
        true,
        false,
        true,
        false,
        true,
        false,
        true,
    ]
}

/// Reassembling the eight emitted bits, most significant first, gives
/// back exactly the byte that was split: no byte is altered by the
/// bit-banged serialization.
pub proof fn lemma_bits_reassemble(data: u8)
    ensures
        data == (if bits_of(data)[0] { 0x80u8 } else { 0u8 })
            | (if bits_of(data)[1] { 0x40u8 } else { 0u8 })
            | (if bits_of(data)[2] { 0x20u8 } else { 0u8 })
            | (if bits_of(data)[3] { 0x10u8 } else { 0u8 })
            | (if bits_of(data)[4] { 0x08u8 } else { 0u8 })
            | (if bits_of(data)[5] { 0x04u8 } else { 0u8 })
            | (if bits_of(data)[6] { 0x02u8 } else { 0u8 })
            | (if bits_of(data)[7] { 0x01u8 } else { 0u8 }),
{
    assert(data == ((if (data & 0x80u8) != 0 { 0x80u8 } else { 0u8 })
        | (if (data & 0x40u8) != 0 { 0x40u8 } else { 0u8 })
        | (if (data & 0x20u8) != 0 { 0x20u8 } else { 0u8 })
        | (if (data & 0x10u8) != 0 { 0x10u8 } else { 0u8 })
        | (if (data & 0x08u8) != 0 { 0x08u8 } else { 0u8 })
        | (if (data & 0x04u8) != 0 { 0x04u8 } else { 0u8 })
        | (if (data & 0x02u8) != 0 { 0x02u8 } else { 0u8 })
        | (if (data & 0x01u8) != 0 { 0x01u8 } else { 0u8 }))) by (bit_vector);
}

/// A serial link bit-banged over two output lines: a clock line and a
/// data line.  Each byte goes out most-significant bit first; the data
/// line is set while the clock is low and latched by driving it high.
pub struct BitBangingSerial<SCK, MOSI> where SCK: Pin, MOSI: Pin {
    /// The clock line.
    pub sck: SCK,
    /// The data line.
    pub mosi: MOSI,
    /// The history behind [`Serial::hist`].
    pub sent: Ghost<Seq<u8>>,
    /// The history behind [`BitBangingSerial::events`].
    pub trace: Ghost<Seq<BitEvent>>,
}

impl<SCK, MOSI> BitBangingSerial<SCK, MOSI> where SCK: Pin, MOSI: Pin {
    /// The line actions this link has performed, in order.
    pub closed spec fn events(&self) -> Seq<BitEvent> {
        self.trace@
    }

    /// A bit-banged link over the clock line `sck` and the data line
    /// `mosi`, with an empty history.
    pub fn new(sck: SCK, mosi: MOSI) -> (r: Self)
        ensures
            r.sck == sck,
            r.mosi == mosi,
            r.hist() == Seq::<u8>::empty(),
            r.events() == Seq::<BitEvent>::empty(),
    {
        BitBangingSerial { sck, mosi, sent: Ghost(Seq::empty()), trace: Ghost(Seq::empty()) }
    }

    /// Transmit one bit: lower the clock, set the data line to the bit,
    /// then raise the clock to latch it.  Exactly three line actions.
    fn write_bit(&mut self, bit: bool)
        ensures
            final(self).events() == old(self).events() + bit_frame(bit),
            final(self).sck.hist() == old(self).sck.hist() + seq![false, true],
            final(self).mosi.hist() == old(self).mosi.hist().push(bit),
            final(self).hist() == old(self).hist(),
    {
        self.sck.low();
        self.trace = Ghost(self.trace@.push(BitEvent::Sck(false)));
        if bit {
            self.mosi.high();
        } else {
            self.mosi.low();
        }
        self.trace = Ghost(self.trace@.push(BitEvent::Mosi(bit)));
        self.sck.high();
        self.trace = Ghost(self.trace@.push(BitEvent::Sck(true)));

        proof {
            assert(self.events() =~= old(self).events() + bit_frame(bit));
            assert(self.sck.hist() =~= old(self).sck.hist() + seq![false, true]);
        }
    }

}

impl<SCK, MOSI> Serial for BitBangingSerial<SCK, MOSI> where SCK: Pin, MOSI: Pin {
    closed spec fn hist(&self) -> Seq<u8> {
        self.sent@
    }

    /// Transmit one byte as eight bit frames, most significant bit
    /// first: the clock line beats eight low-high pulses, the data line
    /// receives exactly the byte's bits in order, and the byte enters
    /// the link's history.
    #[verifier::rlimit(60)]
    fn write(&mut self, data: u8)
        ensures
            final(self).events() == old(self).events() + byte_events(data),
            final(self).sck.hist() == old(self).sck.hist() + byte_clock(),
            final(self).mosi.hist() == old(self).mosi.hist() + bits_of(data),
    {
        self.write_bit((data & 0b10000000) != 0);
        self.write_bit((data & 0b01000000) != 0);
        self.write_bit((data & 0b00100000) != 0);
        self.write_bit((data & 0b00010000) != 0);
        self.write_bit((data & 0b00001000) != 0);
        self.write_bit((data & 0b00000100) != 0);
        self.write_bit((data & 0b00000010) != 0);
        self.write_bit((data & 0b00000001) != 0);
        self.sent = Ghost(self.sent@.push(data));

        proof {
            assert(self.events() =~= old(self).events() + byte_events(data));
            assert(self.sck.hist() =~= old(self).sck.hist() + byte_clock());
            assert(self.mosi.hist() =~= old(self).mosi.hist() + bits_of(data));
        }
    }
}

} // verus!
