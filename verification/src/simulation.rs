//! A chip and a timer in memory, for exercising the driver without hardware:
//! the chip keeps a register file, records every transaction, and can be told
//! to fail one of them; the timer records the waits asked of it.

use crate::bus::Bus;
use crate::delay::Delay;
use vstd::prelude::*;
use vstd::slice::slice_to_vec;

verus! {

/// The error of the simulated bus.
#[derive(Debug, Clone, Copy, PartialEq, Eq, Structural)]
pub struct Fault;

/// One transaction as the simulated chip recorded it.
#[derive(Debug)]
pub struct Exchange {
    /// The device address that the transaction named.
    pub address: u8,
    /// The bytes sent to the device.
    pub sent: Vec<u8>,
    /// The bytes read back; `None` for a plain write.
    pub received: Option<Vec<u8>>,
    /// Whether the transaction was made to fail.
    pub failed: bool,
}

impl Exchange {
    /// This is the record of a transaction with `address` that sent `sent`,
    /// read back `received` where it read at all, and failed or not.
    pub open spec fn holds(
        self,
        address: u8,
        sent: Seq<u8>,
        received: Option<Seq<u8>>,
        failed: bool,
    ) -> bool {
        &&& self.address == address
        &&& self.sent@ == sent
        &&& match self.received {
            None => received is None,
            Some(bytes) => received == Some(bytes@),
        }
        &&& self.failed == failed
    }
}

/// The register that a read starting at `first` delivers as its byte number
/// `offset`: the address counts upwards and wraps at 256.
pub open spec fn register_read(first: u8, offset: int) -> int {
    (first + offset % 256) % 256
}

/// A chip with 256 one-byte registers behind a bus that records what is asked
/// of it.
pub struct SimulatedChip {
    registers: [u8; 256],
    log: Vec<Exchange>,
    fail_at: Option<usize>,
}

impl SimulatedChip {
    /// What the registers hold, by address.
    pub closed spec fn registers(&self) -> Seq<u8> {
        self.registers@
    }

    /// The transactions recorded so far, oldest first.
    pub closed spec fn log(&self) -> Seq<Exchange> {
        self.log@
    }

    /// The position of the transaction that is to fail, counted from 0 over
    /// all transactions, if one is.
    pub closed spec fn failing(&self) -> Option<usize> {
        self.fail_at
    }

    /// The log has grown by one entry, which `holds` the given values.
    pub open spec fn recorded(
        &self,
        earlier: &Self,
        address: u8,
        sent: Seq<u8>,
        received: Option<Seq<u8>>,
        failed: bool,
    ) -> bool {
        &&& self.log().len() == earlier.log().len() + 1
        &&& self.log().drop_last() == earlier.log()
        &&& self.log().last().holds(address, sent, received, failed)
    }

    /// Whether the next transaction will fail.
    pub open spec fn fails_next(&self) -> bool {
        self.failing() == Some(self.log().len() as usize)
    }

    /// A chip with every register at zero, nothing recorded, and no failure
    /// planned.
    pub fn new() -> (chip: Self)
        ensures
            chip.registers() == Seq::new(256, |i: int| 0u8),
            chip.log() == Seq::<Exchange>::empty(),
            chip.failing() is None,
    {
        let chip = SimulatedChip { registers: [0u8; 256], log: Vec::new(), fail_at: None };
        assert(chip.registers@ =~= Seq::new(256, |i: int| 0u8));
        chip
    }

    /// Puts `value` into `register` without a transaction.
    pub fn set_register(&mut self, register: u8, value: u8)
        ensures
            final(self).registers() == old(self).registers().update(register as int, value),
            final(self).log() == old(self).log(),
            final(self).failing() == old(self).failing(),
    {
        self.registers[register as usize] = value;
    }

    /// What `register` holds.
    pub fn register(&self, register: u8) -> (value: u8)
        ensures
            value == self.registers()[register as int],
    {
        self.registers[register as usize]
    }

    /// Makes the transaction at `position` fail, counted from 0 over all
    /// transactions since the chip was made; every other one succeeds.
    pub fn fail_at(&mut self, position: usize)
        ensures
            final(self).failing() == Some(position),
            final(self).registers() == old(self).registers(),
            final(self).log() == old(self).log(),
    {
        self.fail_at = Some(position);
    }

    /// The transactions recorded so far, oldest first.
    pub fn exchanges(&self) -> (log: &Vec<Exchange>)
        ensures
            log@ == self.log(),
    {
        &self.log
    }

    fn next_fails(&self) -> (failed: bool)
        ensures
            failed == self.fails_next(),
    {
        match self.fail_at {
            Some(position) => position == self.log.len(),
            None => false,
        }
    }
}

impl Bus for SimulatedChip {
    type Error = Fault;

    /// Records the write. Where it does not fail and carries two bytes, the
    /// second is stored in the register that the first names.
    fn write(&mut self, address: u8, bytes: &[u8]) -> (result: Result<(), Fault>)
        ensures
            result is Err <==> old(self).fails_next(),
            final(self).failing() == old(self).failing(),
            final(self).recorded(old(self), address, bytes@, None, result is Err),
            final(self).registers() == if result is Ok && bytes@.len() == 2 {
                old(self).registers().update(bytes@[0] as int, bytes@[1])
            } else {
                old(self).registers()
            },
    {
        let failed = self.next_fails();
        if !failed && bytes.len() == 2 {
            self.registers[bytes[0] as usize] = bytes[1];
        }
        let exchange = Exchange { address, sent: slice_to_vec(bytes), received: None, failed };
        let result = if failed {
            Err(Fault)
        } else {
            Ok(())
        };
        self.log.push(exchange);
        assert(self.log@.drop_last() =~= old(self).log@);
        result
    }

    /// Records the exchange. Where it does not fail, the buffer is filled
    /// from the registers, starting at the one that the first byte sent
    /// names; no register changes.
    fn write_read(&mut self, address: u8, bytes: &[u8], buffer: &mut [u8]) -> (result: Result<
        (),
        Fault,
    >)
        ensures
            result is Err <==> old(self).fails_next(),
            final(self).failing() == old(self).failing(),
            final(self).recorded(
                old(self),
                address,
                bytes@,
                Some(final(buffer)@),
                result is Err,
            ),
            final(self).registers() == old(self).registers(),
            final(buffer)@.len() == old(buffer)@.len(),
            result is Err || bytes@.len() == 0 ==> final(buffer)@ == old(buffer)@,
            result is Ok && bytes@.len() > 0 ==> forall|i: int|
                0 <= i < final(buffer)@.len() ==> #[trigger] final(buffer)@[i] == old(
                    self,
                ).registers()[register_read(bytes@[0], i)],
    {
        let failed = self.next_fails();
        let ghost length = buffer@.len();
        if !failed && bytes.len() > 0 {
            let first = bytes[0];
            let mut i: usize = 0;
            while i < buffer.len()
                invariant
                    buffer@.len() == length,
                    0 <= i <= length,
                    forall|j: int|
                        0 <= j < i ==> #[trigger] buffer@[j] == self.registers@[register_read(
                            first,
                            j,
                        )],
                decreases length - i,
            {
                let register: usize = (first as usize + i % 256) % 256;
                buffer[i] = self.registers[register];
                i += 1;
            }
        }
        let exchange = Exchange {
            address,
            sent: slice_to_vec(bytes),
            received: Some(slice_to_vec(buffer)),
            failed,
        };
        let result = if failed {
            Err(Fault)
        } else {
            Ok(())
        };
        self.log.push(exchange);
        assert(self.log@.drop_last() =~= old(self).log@);
        result
    }
}

/// A timer that returns at once and keeps the waits asked of it.
pub struct RecordedDelay {
    waits: Vec<u32>,
}

impl RecordedDelay {
    /// The waits asked so far, in milliseconds, oldest first.
    pub closed spec fn waits(&self) -> Seq<u32> {
        self.waits@
    }

    /// A timer of which nothing was asked yet.
    pub fn new() -> (delay: Self)
        ensures
            delay.waits() == Seq::<u32>::empty(),
    {
        RecordedDelay { waits: Vec::new() }
    }

    /// The waits asked so far, in milliseconds, oldest first.
    pub fn requested(&self) -> (waits: &Vec<u32>)
        ensures
            waits@ == self.waits(),
    {
        &self.waits
    }
}

impl Delay for RecordedDelay {
    /// Records the wait and returns.
    fn delay_ms(&mut self, ms: u32)
        ensures
            final(self).waits() == old(self).waits().push(ms),
    {
        self.waits.push(ms);
    }
}

} // verus!
