//! The two-wire bus as the driver consumes it: two blocking operations on a
//! device address.

use vstd::prelude::*;

verus! {

/// A bus master. Every call is blocking and runs to completion or fails.
/// Retries, clock stretching and arbitration are the transport's business;
/// the driver assumes nothing of a call but that it returns.
pub trait Bus {
    /// What the transport reports when a transaction fails.
    type Error;

    /// Sends `bytes` to the device at `address`.
    fn write(&mut self, address: u8, bytes: &[u8]) -> Result<(), Self::Error>;

    /// Sends `bytes` to the device at `address`, then reads as many bytes as
    /// `buffer` holds into it, in one transaction.
    fn write_read(&mut self, address: u8, bytes: &[u8], buffer: &mut [u8]) -> Result<
        (),
        Self::Error,
    >;
}

} // verus!
