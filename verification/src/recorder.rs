//! A bus together with the record of what was asked of it. The driver reaches
//! its bus, and any timer, only through this: whatever it does outside shows
//! in the record, and nothing else does.

use crate::bus::Bus;
use crate::delay::Delay;
use crate::script::{exchanged, waited, written, Action};
use vstd::prelude::*;

verus! {

/// A bus and the history of the calls made on it.
pub struct Recorder<B: Bus> {
    bus: B,
    history: Ghost<Seq<Action<B::Error>>>,
}

impl<B: Bus> Recorder<B> {
    /// Every call made through this recorder, oldest first.
    pub closed spec fn history(&self) -> Seq<Action<B::Error>> {
        self.history@
    }

    /// The bus inside.
    pub closed spec fn inner(&self) -> B {
        self.bus
    }

    /// A recorder around `bus` through which nothing was asked yet.
    pub closed spec fn fresh(bus: B) -> Self {
        Recorder { bus, history: Ghost(Seq::empty()) }
    }

    /// A fresh recorder has an empty history and holds the bus it was given.
    pub proof fn lemma_fresh(bus: B)
        ensures
            Self::fresh(bus).history() == Seq::<Action<B::Error>>::empty(),
            Self::fresh(bus).inner() == bus,
    {
    }

    /// Wraps `bus`, with an empty history.
    pub fn new(bus: B) -> (recorder: Self)
        ensures
            recorder == Self::fresh(bus),
            recorder.history() == Seq::<Action<B::Error>>::empty(),
            recorder.inner() == bus,
    {
        Recorder { bus, history: Ghost(Seq::empty()) }
    }

    /// Sends `bytes` to the device at `address`, and records the call with
    /// its outcome. The bus's result is returned as it is.
    pub fn write(&mut self, address: u8, bytes: &[u8]) -> (result: Result<(), B::Error>)
        ensures
            final(self).history() == old(self).history().push(written(address, bytes@, result)),
    {
        let result = self.bus.write(address, bytes);
        self.history = Ghost(self.history@.push(written(address, bytes@, result)));
        result
    }

    /// Sends `bytes` to the device at `address` and reads into `buffer`, and
    /// records the call with what the buffer then holds. The bus's result is
    /// returned as it is.
    pub fn write_read(&mut self, address: u8, bytes: &[u8], buffer: &mut [u8]) -> (result: Result<
        (),
        B::Error,
    >)
        ensures
            final(self).history() == old(self).history().push(
                exchanged(address, bytes@, final(buffer)@, result),
            ),
    {
        let result = self.bus.write_read(address, bytes, buffer);
        self.history = Ghost(self.history@.push(exchanged(address, bytes@, buffer@, result)));
        result
    }

    /// Waits `ms` milliseconds on `delay`, and records the wait.
    pub fn wait<D: Delay>(&mut self, delay: &mut D, ms: u32)
        ensures
            final(self).history() == old(self).history().push(waited(ms)),
            final(self).inner() == old(self).inner(),
    {
        delay.delay_ms(ms);
        self.history = Ghost(self.history@.push(waited(ms)));
    }

    /// The bus inside.
    pub fn bus(&self) -> (bus: &B)
        ensures
            *bus == self.inner(),
    {
        &self.bus
    }

    /// Gives up the record and hands back the bus.
    pub fn release(self) -> (bus: B)
        ensures
            bus == self.inner(),
    {
        self.bus
    }
}

} // verus!
