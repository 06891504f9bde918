//! Driver core for an ILI9163C-class color TFT controller.
//!
//! The controller sits behind a two-wire-selected serial command/data bus:
//! a byte-level serial link plus two digital output lines (data/command
//! select and chip enable).  This crate turns drawing requests — fill a
//! rectangle, draw a line, draw a circle, clear the screen — into the
//! controller's command and pixel byte stream.
//!
//! Every driver operation carries a contract describing, event for event,
//! the traffic it places on the bus; see [`bus`] for the event model and
//! [`driver`] for the operations themselves.

use vstd::prelude::*;

pub mod bus;
pub mod command;
pub mod driver;
pub mod gpio;
pub mod spi;

verus! {

/// Pause execution for `ms` milliseconds.
///
/// The transport-free stand-in behind [`DummyDelay`]: it returns at
/// once.  On hardware the pause must really block; an embedding supplies
/// that through its own [`Delay`] implementation.
pub fn sleep(ms: u16) {
    let _unused: u16 = ms;
}

/// The delay capability: block execution for a requested number of
/// milliseconds.  The initialization sequence needs it for the two
/// mandatory pauses after reset and after sleep-out.
pub trait Delay {
    /// The pauses requested so far, in order, in milliseconds.
    spec fn paused(&self) -> Seq<u16>;

    /// Block for `ms` milliseconds.
    fn sleep(&mut self, ms: u16)
        ensures
            final(self).paused() == old(self).paused().push(ms),
    ;
}

/// A delay that records each request in its history and returns at once,
/// for transport-free use; real hardware needs a blocking implementation.
pub struct DummyDelay {
    waited: Ghost<Seq<u16>>,
}

impl DummyDelay {
    /// A fresh non-blocking delay with an empty history.
    pub fn new() -> (r: Self)
        ensures
            r.paused() == Seq::<u16>::empty(),
    {
        DummyDelay { waited: Ghost(Seq::empty()) }
    }
}

impl Delay for DummyDelay {
    closed spec fn paused(&self) -> Seq<u16> {
        self.waited@
    }

    fn sleep(&mut self, ms: u16) {
        crate::sleep(ms);
        self.waited = Ghost(self.waited@.push(ms));
    }
}

} // verus!
