//! The blocking wait that the driver asks for after a reset.

use vstd::prelude::*;

verus! {

/// A blocking timer. The driver assumes no time source of its own: the caller
/// hands one in where a wait is needed.
pub trait Delay {
    /// Returns after at least `ms` milliseconds.
    fn delay_ms(&mut self, ms: u32);
}

} // verus!
