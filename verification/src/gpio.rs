//! Digital output lines.
//!
//! The driver needs two independent output lines: the data/command select
//! line and the chip enable line.  Any concrete line — a real port, a
//! no-op stub, a logging stub — supplies the same [`Pin`] capability.
//! Each line carries a specification-level history of the levels it has
//! been driven to, so that a caller's contract can state exactly what was
//! asked of the line.

use std::io::Write;
use vstd::prelude::*;

verus! {

/// A digital output line: drive it high or drive it low.
pub trait Pin {
    /// The levels this line has been driven to, in order (true is high).
    spec fn hist(&self) -> Seq<bool>;

    /// Drive the line high.
    fn high(&mut self)
        ensures
            final(self).hist() == old(self).hist().push(true),
    ;

    /// Drive the line low.
    fn low(&mut self)
        ensures
            final(self).hist() == old(self).hist().push(false),
    ;
}

/// A line connected to nothing: both transitions do nothing but enter
/// the history.
pub struct DummyPin {
    driven: Ghost<Seq<bool>>,
}

impl DummyPin {
    /// A fresh unconnected line with an empty history.
    pub fn new() -> (r: Self)
        ensures
            r.hist() == Seq::<bool>::empty(),
    {
        DummyPin { driven: Ghost(Seq::empty()) }
    }
}

impl Pin for DummyPin {
    closed spec fn hist(&self) -> Seq<bool> {
        self.driven@
    }

    fn high(&mut self) {
        self.driven = Ghost(self.driven@.push(true));
    }

    fn low(&mut self) {
        self.driven = Ghost(self.driven@.push(false));
    }
}

/// Relies on `std::io::stdout`: prints one `"<name> <level>"` line on
/// standard output for a logged pin transition.
#[verifier::external_body]
fn emit_pin_line(name: &String, level: &str) {
    let _ = writeln!(std::io::stdout(), "{} {}", name, level);
}

/// A line that logs every transition to standard output under a name.
pub struct DebugPin {
    /// The label printed before each transition.
    pub name: String,
    /// The history behind [`Pin::hist`].
    pub driven: Ghost<Seq<bool>>,
}

impl DebugPin {
    /// A fresh logging line labelled `name`, with an empty history.
    pub fn new(name: &str) -> (r: Self)
        ensures
            r.name@ == name@,
            r.hist() == Seq::<bool>::empty(),
    {
        DebugPin { name: name.to_owned(), driven: Ghost(Seq::empty()) }
    }
}

impl Pin for DebugPin {
    closed spec fn hist(&self) -> Seq<bool> {
        self.driven@
    }

    fn high(&mut self) {
        emit_pin_line(&self.name, "HIGH");
        self.driven = Ghost(self.driven@.push(true));
    }

    fn low(&mut self) {
        emit_pin_line(&self.name, "LOW");
        self.driven = Ghost(self.driven@.push(false));
    }
}

} // verus!
