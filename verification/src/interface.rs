//! The capability traits the driver is generic over, and the driver's error
//! type.
//!
//! The board supplies the implementations: a serial bus that carries bytes
//! to the controller, two infallible control lines (data/command select and
//! reset), and a millisecond delay. Each capability carries a history
//! model — the bytes ever written, the levels ever driven, the delays ever
//! performed — and every contract of the driver pins exactly what an
//! operation appends to those histories.

use vstd::prelude::*;

verus! {

/// Errors surfaced by the driver.
#[derive(Debug)]
pub enum Error<E> {
    /// Communication error: the bus transport failed, carrying its native
    /// error.
    Comm(E),
    /// Control-line failure. The control-line capability is infallible, so
    /// the driver never produces this; it is kept for portability to
    /// fallible pin implementations.
    Pin,
}

/// Write-only serial bus to the controller.
///
/// `written()` is the model of the bus: all bytes ever written over it, in
/// order. A successful `write` appends exactly the bytes given; a failed
/// `write` has transferred some prefix of them — the cut is unknown, which
/// leaves controller addressing in an undefined partial state, so the
/// caller must re-arm it before further writes.
pub trait Bus: Sized {
    /// The transport's native error type.
    type BusError;

    /// All bytes written over the bus so far, in order. Left unspecified
    /// here: each implementation carries its own meaning for it.
    open spec fn written(&self) -> Seq<u8> {
        arbitrary()
    }

    /// Write all given bytes, in order, completing before returning.
    fn write(&mut self, data: &[u8]) -> (res: Result<(), Self::BusError>)
        ensures
            res is Ok ==> final(self).written() == old(self).written() + data@,
            res is Err ==> exists|k: int|
                0 <= k <= data@.len() && final(self).written() == old(self).written()
                    + #[trigger] data@.take(k),
    ;
}

/// An infallible output line, modeled by the levels ever driven on it.
pub trait ControlPin: Sized {
    /// True when the line is driven high. Left unspecified here: each
    /// implementation carries its own meaning for it.
    open spec fn is_high(&self) -> bool {
        arbitrary()
    }

    /// Every level ever driven on the line, in order: `true` for high,
    /// `false` for low. Left unspecified here: each implementation carries
    /// its own meaning for it.
    open spec fn levels(&self) -> Seq<bool> {
        arbitrary()
    }

    /// Drive the line high.
    fn set_high(&mut self)
        ensures
            final(self).is_high(),
            final(self).levels() == old(self).levels() + seq![true],
    ;

    /// Drive the line low.
    fn set_low(&mut self)
        ensures
            !final(self).is_high(),
            final(self).levels() == old(self).levels() + seq![false],
    ;
}

/// Millisecond delay capability for reset and boot timing, modeled by the
/// delays ever performed through it.
pub trait Timer: Sized {
    /// Every delay performed so far, in milliseconds, in order. Left
    /// unspecified here: each implementation carries its own meaning for
    /// it.
    open spec fn elapsed(&self) -> Seq<u64> {
        arbitrary()
    }

    /// Delay for the specified number of milliseconds.
    fn delay_ms(&mut self, milliseconds: u64)
        ensures
            final(self).elapsed() == old(self).elapsed() + seq![milliseconds],
    ;
}

} // verus!
