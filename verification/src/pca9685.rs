//! The PCA9685 register protocol: device addressing, register layout, mode
//! bits, prescale arithmetic, and the driver that turns logical operations
//! into single-register bus transactions.

use crate::bus::Bus;
use crate::delay::Delay;
use crate::recorder::Recorder;
use crate::script::{
    added, byte_read, byte_read_at, carries, exchanged, follows, lemma_added_twice,
    lemma_follows_abort, lemma_follows_then, lemma_ok_is_unit, status, waited, written, Action,
    Request,
};
use vstd::prelude::*;

verus! {

/// Bus address of a chip with all six address pins low.
pub const DEFAULT_ADDRESS: u8 = 0x40;

/// Bus address to which every chip answers that has the all-call bit set in
/// mode-1.
pub const ALL_CALL_ADDRESS: u8 = 0x70;

/// Frequency of the chip's internal oscillator, in hertz.
pub const DEFAULT_FREQUENCY: u32 = 25_000_000;

/// Smallest prescale value that the chip documents.
pub const PRESCALE_MIN: u8 = 3;

/// Largest prescale value that the chip documents.
pub const PRESCALE_MAX: u8 = 255;

/// Time that the chip needs after a restart before it takes requests, in
/// milliseconds.
pub const RESET_SETTLE_MS: u32 = 5;

/// Register addresses.
pub struct Register;

impl Register {
    pub const MODE1: u8 = 0x00;

    pub const MODE2: u8 = 0x01;

    pub const SUBADR1: u8 = 0x02;

    pub const SUBADR2: u8 = 0x03;

    pub const SUBADR3: u8 = 0x04;

    pub const ALLCALLADR: u8 = 0x05;

    pub const LED0_ON_L: u8 = 0x06;

    pub const LED0_ON_H: u8 = 0x07;

    pub const LED0_OFF_L: u8 = 0x08;

    pub const LED0_OFF_H: u8 = 0x09;

    pub const ALL_LED_ON_L: u8 = 0xFA;

    pub const ALL_LED_ON_H: u8 = 0xFB;

    pub const ALL_LED_OFF_L: u8 = 0xFC;

    pub const ALL_LED_OFF_H: u8 = 0xFD;

    pub const PRESCALE: u8 = 0xFE;

    pub const TEST_MODE: u8 = 0xFF;
}

/// Bits of the mode-1 register.
pub struct Mode1;

impl Mode1 {
    pub const ALL_CALL: u8 = 0x01;

    pub const SUB1: u8 = 0x02;

    pub const SUB2: u8 = 0x04;

    pub const SUB3: u8 = 0x08;

    pub const SLEEP: u8 = 0x10;

    pub const AUTO_INC: u8 = 0x20;

    pub const EXT_CLK: u8 = 0x40;

    pub const RESTART: u8 = 0x80;
}

/// Bits of the mode-2 register.
pub struct Mode2;

impl Mode2 {
    pub const OUTNE0: u8 = 0x01;

    pub const OUTNE1: u8 = 0x02;

    pub const OUTDRV: u8 = 0x04;

    pub const OCH: u8 = 0x08;

    pub const INVRT: u8 = 0x10;
}

/// Mode-1 value `mode1` with the sleep bit set and every other bit as it was.
pub open spec fn asleep(mode1: u8) -> u8 {
    mode1 | 0x10
}

/// Mode-1 value `mode1` with the sleep bit cleared and every other bit as it
/// was.
pub open spec fn awake(mode1: u8) -> u8 {
    mode1 & !0x10u8
}

/// Setting the sleep bit changes no other bit, and leaves the bit set.
pub proof fn lemma_asleep_keeps_other_bits(mode1: u8)
    ensures
        asleep(mode1) & 0x10 == 0x10,
        asleep(mode1) & !0x10u8 == mode1 & !0x10u8,
{
    assert((mode1 | 0x10) & 0x10 == 0x10) by (bit_vector);
    assert((mode1 | 0x10) & !0x10u8 == mode1 & !0x10u8) by (bit_vector);
}

/// Clearing the sleep bit changes no other bit, and leaves the bit clear.
pub proof fn lemma_awake_keeps_other_bits(mode1: u8)
    ensures
        awake(mode1) & 0x10 == 0,
        awake(mode1) | 0x10 == mode1 | 0x10,
{
    assert((mode1 & !0x10u8) & 0x10 == 0) by (bit_vector);
    assert((mode1 & !0x10u8) | 0x10 == mode1 | 0x10) by (bit_vector);
}

/// Going to sleep and waking again restores the mode-1 value of a chip that
/// was awake.
pub proof fn lemma_sleep_then_wake_restores(mode1: u8)
    requires
        mode1 & 0x10 == 0,
    ensures
        awake(asleep(mode1)) == mode1,
{
    assert(mode1 & 0x10 == 0 ==> (mode1 | 0x10) & !0x10u8 == mode1) by (bit_vector);
}

/// Output channel selection.
#[derive(Debug, Clone, Copy, PartialEq, Eq, Structural)]
pub enum Channel {
    C0,
    C1,
    C2,
    C3,
    C4,
    C5,
    C6,
    C7,
    C8,
    C9,
    C10,
    C11,
    C12,
    C13,
    C14,
    C15,
}

impl Channel {
    /// The channel's number, 0 to 15.
    pub open spec fn number(self) -> int {
        match self {
            Channel::C0 => 0,
            Channel::C1 => 1,
            Channel::C2 => 2,
            Channel::C3 => 3,
            Channel::C4 => 4,
            Channel::C5 => 5,
            Channel::C6 => 6,
            Channel::C7 => 7,
            Channel::C8 => 8,
            Channel::C9 => 9,
            Channel::C10 => 10,
            Channel::C11 => 11,
            Channel::C12 => 12,
            Channel::C13 => 13,
            Channel::C14 => 14,
            Channel::C15 => 15,
        }
    }

    /// Address of the first of the channel's four registers.
    pub open spec fn base(self) -> int {
        0x06 + 4 * self.number()
    }

    /// The channel's number, 0 to 15.
    pub fn index(self) -> (n: u8)
        ensures
            n == self.number(),
            n <= 15,
    {
        match self {
            Channel::C0 => 0,
            Channel::C1 => 1,
            Channel::C2 => 2,
            Channel::C3 => 3,
            Channel::C4 => 4,
            Channel::C5 => 5,
            Channel::C6 => 6,
            Channel::C7 => 7,
            Channel::C8 => 8,
            Channel::C9 => 9,
            Channel::C10 => 10,
            Channel::C11 => 11,
            Channel::C12 => 12,
            Channel::C13 => 13,
            Channel::C14 => 14,
            Channel::C15 => 15,
        }
    }

    /// The channel with number `n`, where there is one.
    pub fn from_index(n: u8) -> (channel: Option<Channel>)
        ensures
            n <= 15 ==> channel is Some && channel->Some_0.number() == n,
            n > 15 ==> channel is None,
    {
        match n {
            0 => Some(Channel::C0),
            1 => Some(Channel::C1),
            2 => Some(Channel::C2),
            3 => Some(Channel::C3),
            4 => Some(Channel::C4),
            5 => Some(Channel::C5),
            6 => Some(Channel::C6),
            7 => Some(Channel::C7),
            8 => Some(Channel::C8),
            9 => Some(Channel::C9),
            10 => Some(Channel::C10),
            11 => Some(Channel::C11),
            12 => Some(Channel::C12),
            13 => Some(Channel::C13),
            14 => Some(Channel::C14),
            15 => Some(Channel::C15),
            _ => None,
        }
    }

    /// Address of the first of the channel's four registers: on-low, on-high,
    /// off-low and off-high follow each other from there.
    pub fn base_register(self) -> (register: u8)
        ensures
            register == self.base(),
            register == 0x06 + 4 * self.number(),
            0x06 <= register <= 0x42,
    {
        Register::LED0_ON_L + 4 * self.index()
    }
}

/// Two different channels share none of their four registers, and a
/// channel's registers lie between the mode registers and the all-channel
/// registers.
pub proof fn lemma_channel_registers_apart(a: Channel, b: Channel, i: int, j: int)
    requires
        a != b,
        0 <= i < 4,
        0 <= j < 4,
    ensures
        a.base() != b.base(),
        a.base() + i != b.base() + j,
        0x06 <= a.base() + i <= 0x45,
{
}

/// The channel number determines the channel.
pub proof fn lemma_channel_number_injective(a: Channel, b: Channel)
    requires
        a.number() == b.number(),
    ensures
        a == b,
{
}

/// The part of a device address that the six address pins select: pin A0 is
/// bit 0, and so on to pin A5, bit 5.
pub open spec fn pin_mask(a5: bool, a4: bool, a3: bool, a2: bool, a1: bool, a0: bool) -> u8 {
    (pin(a0, 0x01) + pin(a1, 0x02) + pin(a2, 0x04) + pin(a3, 0x08) + pin(a4, 0x10) + pin(
        a5,
        0x20,
    )) as u8
}

/// `bit` where the pin is high, 0 where it is low.
pub open spec fn pin(high: bool, bit: u8) -> u8 {
    if high {
        bit
    } else {
        0
    }
}

proof fn lemma_or_zero()
    by (bit_vector)
    ensures
        forall|x: u8| #[trigger] (x | 0) == x,
{
}

proof fn lemma_pin_bits(b0: u8, b1: u8, b2: u8, b3: u8, b4: u8, b5: u8)
    by (bit_vector)
    requires
        b0 == 0 || b0 == 0x01,
        b1 == 0 || b1 == 0x02,
        b2 == 0 || b2 == 0x04,
        b3 == 0 || b3 == 0x08,
        b4 == 0 || b4 == 0x10,
        b5 == 0 || b5 == 0x20,
    ensures
        ({
            let address = 0x40u8 | b0 | b1 | b2 | b3 | b4 | b5;
            let mask = b0 + b1 + b2 + b3 + b4 + b5;
            &&& mask <= 0x3F
            &&& address == 0x40u8 | (mask as u8)
            &&& address == 0x40 + mask
            &&& address & 0x01 == b0
            &&& address & 0x02 == b1
            &&& address & 0x04 == b2
            &&& address & 0x08 == b3
            &&& address & 0x10 == b4
            &&& address & 0x20 == b5
        }),
{
}

/// Device address configuration.
pub struct Address(pub u8);

impl Address {
    /// The address selected by the hardware configuration pins A5 to A0:
    /// the base address with the pins' bits set in it.
    pub fn new(a5: bool, a4: bool, a3: bool, a2: bool, a1: bool, a0: bool) -> (address: Self)
        ensures
            address.0 == 0x40u8 | pin_mask(a5, a4, a3, a2, a1, a0),
            address.0 == 0x40 + pin_mask(a5, a4, a3, a2, a1, a0),
            0x40 <= address.0 <= 0x7F,
            (address.0 & 0x01 != 0) == a0,
            (address.0 & 0x02 != 0) == a1,
            (address.0 & 0x04 != 0) == a2,
            (address.0 & 0x08 != 0) == a3,
            (address.0 & 0x10 != 0) == a4,
            (address.0 & 0x20 != 0) == a5,
    {
        let ghost b0: u8 = if a0 { 0x01 } else { 0 };
        let ghost b1: u8 = if a1 { 0x02 } else { 0 };
        let ghost b2: u8 = if a2 { 0x04 } else { 0 };
        let ghost b3: u8 = if a3 { 0x08 } else { 0 };
        let ghost b4: u8 = if a4 { 0x10 } else { 0 };
        let ghost b5: u8 = if a5 { 0x20 } else { 0 };
        proof {
            lemma_or_zero();
        }
        let mut addr: u8 = 0x40;
        if a0 {
            addr |= 0x01;
        }
        assert(addr == 0x40u8 | b0);
        if a1 {
            addr |= 0x02;
        }
        assert(addr == 0x40u8 | b0 | b1);
        if a2 {
            addr |= 0x04;
        }
        assert(addr == 0x40u8 | b0 | b1 | b2);
        if a3 {
            addr |= 0x08;
        }
        assert(addr == 0x40u8 | b0 | b1 | b2 | b3);
        if a4 {
            addr |= 0x10;
        }
        assert(addr == 0x40u8 | b0 | b1 | b2 | b3 | b4);
        if a5 {
            addr |= 0x20;
        }
        assert(addr == 0x40u8 | b0 | b1 | b2 | b3 | b4 | b5);
        proof {
            lemma_pin_bits(b0, b1, b2, b3, b4, b5);
        }
        Address(addr)
    }
}

impl Default for Address {
    /// The address of a chip with all six address pins low.
    fn default() -> (address: Self)
        ensures
            address.0 == 0x40,
    {
        Address(DEFAULT_ADDRESS)
    }
}

/// Prescale value for an output frequency of `frequency_hz`: the oscillator
/// frequency divided by 4096 times the output frequency, rounded to the
/// nearest integer, less one, and held to what a byte can carry. The chip's
/// documented range is not enforced. A frequency of 0 gives 255.
pub open spec fn prescale_for(frequency_hz: int) -> int {
    if frequency_hz <= 0 {
        255
    } else {
        let cycle = rounded_quotient(25_000_000, 4096 * frequency_hz);
        if cycle < 1 {
            0
        } else if cycle > 256 {
            255
        } else {
            cycle - 1
        }
    }
}

/// `n / d` rounded to the nearest integer, halves upwards.
pub open spec fn rounded_quotient(n: int, d: int) -> int
    recommends
        n >= 0,
        d > 0,
{
    (2 * n + d) / (2 * d)
}

/// `rounded_quotient(n, d)` is an integer nearest to `n / d`: it is off by at
/// most a half.
pub proof fn lemma_rounded_quotient_is_nearest(n: int, d: int)
    requires
        n >= 0,
        d > 0,
    ensures
        2 * n - d < 2 * d * rounded_quotient(n, d) <= 2 * n + d,
{
    let q = rounded_quotient(n, d);
    let m = 2 * n + d;
    let e = 2 * d;
    assert(m == e * (m / e) + m % e && 0 <= m % e < e) by (nonlinear_arith)
        requires
            e > 0,
    ;
    assert(2 * d * q == e * (m / e)) by (nonlinear_arith)
        requires
            q == m / e,
            e == 2 * d,
    ;
}

/// Prescale value for an output frequency of `frequency_hz` hertz.
pub fn prescale_for_frequency(frequency_hz: u32) -> (prescale: u8)
    ensures
        prescale == prescale_for(frequency_hz as int),
{
    if frequency_hz == 0 {
        return PRESCALE_MAX;
    }
    let step: u64 = 4096 * (frequency_hz as u64);
    let cycle: u64 = (2 * (DEFAULT_FREQUENCY as u64) + step) / (2 * step);
    if cycle < 1 {
        0
    } else if cycle > 256 {
        PRESCALE_MAX
    } else {
        (cycle - 1) as u8
    }
}

/// The low byte of a tick count.
pub open spec fn low_byte(ticks: u16) -> u8 {
    (ticks % 256) as u8
}

/// The high byte of a tick count.
pub open spec fn high_byte(ticks: u16) -> u8 {
    (ticks / 256) as u8
}

/// The requests that read mode-1 and write it back with the sleep bit set
/// (`sleep`) or cleared, given that the read brings `mode1`.
pub open spec fn mode1_script(sleep: bool, mode1: u8) -> Seq<Request> {
    seq![
        Request::Read { register: 0x00 },
        Request::Write { register: 0x00, value: if sleep { asleep(mode1) } else { awake(mode1) } },
    ]
}

/// The requests of a frequency change to `prescale`: go to sleep, write the
/// prescale register, wake. `before` is what the first read of mode-1 brings,
/// `during` what the second brings.
pub open spec fn frequency_script(prescale: u8, before: u8, during: u8) -> Seq<Request> {
    mode1_script(true, before) + seq![Request::Write { register: 0xFE, value: prescale }]
        + mode1_script(false, during)
}

/// The four requests that set a channel's pulse window: on-low, on-high,
/// off-low, off-high, at the channel's four registers in rising order.
pub open spec fn pwm_script(channel: Channel, on: u16, off: u16) -> Seq<Request> {
    seq![
        Request::Write { register: channel.base() as u8, value: low_byte(on) },
        Request::Write { register: (channel.base() + 1) as u8, value: high_byte(on) },
        Request::Write { register: (channel.base() + 2) as u8, value: low_byte(off) },
        Request::Write { register: (channel.base() + 3) as u8, value: high_byte(off) },
    ]
}

/// What a frequency change leaves on the bus: at most five transactions. The
/// prescale register is written only after mode-1 was read and written back
/// with the sleep bit set and no other bit changed, both with success; a
/// change that succeeded ends with mode-1 read again and written back with
/// the sleep bit cleared and no other bit changed.
pub proof fn lemma_frequency_run<E>(
    trace: Seq<Action<E>>,
    address: u8,
    prescale: u8,
    result: Result<(), E>,
)
    requires
        follows(
            trace,
            address,
            frequency_script(prescale, byte_read_at(trace, 0), byte_read_at(trace, 3)),
            result,
        ),
    ensures
        1 <= trace.len() <= 5,
        result is Ok ==> trace.len() == 5,
        trace.len() >= 3 ==> {
            &&& carries(trace[0], address, Request::Read { register: 0x00 })
            &&& status(trace[0]) is Ok
            &&& carries(
                trace[1],
                address,
                Request::Write { register: 0x00, value: byte_read(trace[0]) | 0x10 },
            )
            &&& status(trace[1]) is Ok
            &&& carries(trace[2], address, Request::Write { register: 0xFE, value: prescale })
        },
        trace.len() == 5 ==> {
            &&& status(trace[2]) is Ok
            &&& carries(trace[3], address, Request::Read { register: 0x00 })
            &&& status(trace[3]) is Ok
            &&& carries(
                trace[4],
                address,
                Request::Write { register: 0x00, value: byte_read(trace[3]) & !0x10u8 },
            )
            &&& status(trace[4]) == result
        },
{
    let script = frequency_script(prescale, byte_read_at(trace, 0), byte_read_at(trace, 3));
    assert(script.len() == 5);
    assert forall|i: int| 0 <= i < trace.len() implies carries(
        #[trigger] trace[i],
        address,
        script[i],
    ) by {}
    if trace.len() >= 3 {
        assert(carries(trace[0], address, script[0]));
        assert(carries(trace[1], address, script[1]));
        assert(carries(trace[2], address, script[2]));
        assert(status(trace[0]) is Ok);
        assert(status(trace[1]) is Ok);
    }
    if trace.len() == 5 {
        assert(carries(trace[3], address, script[3]));
        assert(carries(trace[4], address, script[4]));
        assert(status(trace[2]) is Ok);
        assert(status(trace[3]) is Ok);
    }
}

/// The byte that goes to the register at `offset` from a channel's base
/// register when its pulse window is set.
pub open spec fn pwm_byte(on: u16, off: u16, offset: int) -> u8 {
    if offset == 0 {
        low_byte(on)
    } else if offset == 1 {
        high_byte(on)
    } else if offset == 2 {
        low_byte(off)
    } else {
        high_byte(off)
    }
}

/// What setting a pulse window leaves on the bus: at most four writes and at
/// least one, the one at position `i` carrying byte `i` of the window to
/// register `i` from the channel's base; four of them exactly where the call
/// succeeded, and fewer only where the last one failed.
pub proof fn lemma_pwm_run<E>(
    trace: Seq<Action<E>>,
    address: u8,
    channel: Channel,
    on: u16,
    off: u16,
    result: Result<(), E>,
)
    requires
        follows(trace, address, pwm_script(channel, on, off), result),
    ensures
        1 <= trace.len() <= 4,
        result is Ok ==> trace.len() == 4,
        trace.len() < 4 ==> result is Err,
        status(trace.last()) == result,
        forall|i: int|
            0 <= i < trace.len() ==> (#[trigger] trace[i] matches Action::Write {
                address: to,
                bytes,
                outcome,
            } && to == address && bytes == seq![(channel.base() + i) as u8, pwm_byte(on, off, i)]
                && (i < trace.len() - 1 ==> outcome is Ok)),
{
    let script = pwm_script(channel, on, off);
    assert forall|i: int| 0 <= i < trace.len() implies (#[trigger] trace[i] matches Action::Write {
        address: to,
        bytes,
        outcome,
    } && to == address && bytes == seq![(channel.base() + i) as u8, pwm_byte(on, off, i)] && (i
        < trace.len() - 1 ==> outcome is Ok)) by {
        assert(carries(trace[i], address, script[i]));
        if i < trace.len() - 1 {
            assert(status(trace[i]) is Ok);
        }
    }
}

/// The one request of initialization: `0x01` to mode-1.
pub open spec fn init_script() -> Seq<Request> {
    seq![Request::Write { register: 0x00, value: 0x01 }]
}

/// The one request of a reset: the restart bit to mode-1.
pub open spec fn reset_script() -> Seq<Request> {
    seq![Request::Write { register: 0x00, value: 0x80 }]
}

/// The requests of a reset that gives the chip time to settle: the restart
/// bit to mode-1, then a wait.
pub open spec fn settle_script() -> Seq<Request> {
    reset_script() + seq![Request::Wait { milliseconds: 5 }]
}

/// PCA9685 device on a bus.
pub struct PCA9685<I2C: Bus> {
    /// Bus interface, with the record of its use
    i2c: Recorder<I2C>,
    /// Bus address
    address: u8,
}

impl<I2C: Bus> PCA9685<I2C> {
    /// Everything the driver has asked of its bus and of a timer since it
    /// was made, oldest first: every bus transaction it attempted, with the
    /// outcome, and every wait.
    pub closed spec fn history(&self) -> Seq<Action<I2C::Error>> {
        self.i2c.history()
    }

    /// The bus that the driver owns.
    pub closed spec fn transport(&self) -> I2C {
        self.i2c.inner()
    }

    /// The address of the device that the driver talks to.
    pub closed spec fn address(&self) -> u8 {
        self.address
    }

    /// What the driver has asked of its collaborators since it was `earlier`.
    pub open spec fn issued_since(&self, earlier: &Self) -> Seq<Action<I2C::Error>> {
        added(earlier.history(), self.history())
    }

    /// Since it was `earlier`, the driver has carried out `script` on its
    /// device up to the first failure, with `result`, and has asked nothing
    /// else of the bus or of a timer; its device address is unchanged.
    pub open spec fn ran(&self, earlier: &Self, script: Seq<Request>, result: Result<
        (),
        I2C::Error,
    >) -> bool {
        &&& self.address() == earlier.address()
        &&& earlier.history().is_prefix_of(self.history())
        &&& follows(self.issued_since(earlier), self.address(), script, result)
    }

    /// Two runs in a row, the first successful, are one run of both scripts.
    pub proof fn lemma_ran_then(
        &self,
        start: &Self,
        middle: &Self,
        head: Seq<Request>,
        tail: Seq<Request>,
        result: Result<(), I2C::Error>,
    )
        requires
            middle.ran(start, head, Ok(())),
            self.ran(middle, tail, result),
        ensures
            self.ran(start, head + tail, result),
            self.issued_since(start) == middle.issued_since(start) + self.issued_since(middle),
    {
        lemma_added_twice(start.history(), middle.history(), self.history());
        lemma_follows_then(
            middle.issued_since(start),
            self.issued_since(middle),
            self.address(),
            head,
            tail,
            result,
        );
    }

    /// A failed run is a failed run of any script that goes on after it.
    pub proof fn lemma_ran_abort(
        &self,
        start: &Self,
        head: Seq<Request>,
        tail: Seq<Request>,
        result: Result<(), I2C::Error>,
    )
        requires
            self.ran(start, head, result),
            result is Err,
        ensures
            self.ran(start, head + tail, result),
    {
        lemma_follows_abort(self.issued_since(start), self.address(), head, tail, result);
    }

    /// A driver for the device at `address` on `i2c` that has done nothing
    /// yet.
    pub closed spec fn idle(i2c: I2C, address: Address) -> Self {
        PCA9685 { i2c: Recorder::fresh(i2c), address: address.0 }
    }

    /// A driver that has done nothing yet has an empty history, and holds the
    /// bus and the address that it was given.
    pub proof fn lemma_idle(i2c: I2C, address: Address)
        ensures
            Self::idle(i2c, address).history() == Seq::<Action<I2C::Error>>::empty(),
            Self::idle(i2c, address).address() == address.0,
            Self::idle(i2c, address).transport() == i2c,
    {
        Recorder::lemma_fresh(i2c);
    }

    /// Create a new PCA9685 instance: takes the bus and the device address, and
    /// writes `0x01` to mode-1 so that the chip answers to the all-call
    /// address. Nothing is retried: where the write fails the bus's error is
    /// returned and the bus is given up. Whether the write succeeds is for
    /// the bus to say; `initialised` says what is returned either way.
    pub fn new(i2c: I2C, address: Address) -> (result: Result<Self, I2C::Error>)
        ensures
            Self::built(i2c, address, result),
            result matches Ok(pca) ==> pca.address() == address.0,
            result matches Ok(pca) ==> pca.history() == seq![
                written::<I2C::Error>(address.0, seq![0x00u8, 0x01u8], Ok(())),
            ],
            result matches Ok(pca) ==> pca.ran(&Self::idle(i2c, address), init_script(), Ok(())),
    {
        let mut pca = PCA9685 { i2c: Recorder::new(i2c), address: address.0 };
        let outcome = pca.init();
        let ghost after = pca;
        proof {
            if outcome is Ok {
                lemma_ok_is_unit(outcome);
            }
            assert(after.ran(&Self::idle(i2c, address), init_script(), outcome));
        }
        pca.initialised(outcome)
    }

    /// What construction returns once the initialisation has brought the
    /// driver to `after` with `outcome`: the driver where it succeeded, the
    /// bus's error, unchanged, where it failed.
    pub open spec fn constructed(
        after: Self,
        outcome: Result<(), I2C::Error>,
        result: Result<Self, I2C::Error>,
    ) -> bool {
        match outcome {
            Ok(_) => result == Ok::<Self, I2C::Error>(after),
            Err(e) => result == Err::<Self, I2C::Error>(e),
        }
    }

    /// `result` is what comes of construction on `i2c` for `address`: from
    /// idle, the initialisation was attempted, that and nothing else, and
    /// its outcome decided what was returned.
    pub open spec fn built(i2c: I2C, address: Address, result: Result<Self, I2C::Error>) -> bool {
        exists|after: Self, outcome: Result<(), I2C::Error>|
            #[trigger] after.ran(&Self::idle(i2c, address), init_script(), outcome)
                && Self::constructed(after, outcome, result)
    }

    /// Ends a construction: hands out the driver where `outcome`, the result
    /// of its initialisation, is a success, and gives it up for the error
    /// where it is a failure.
    pub fn initialised(self, outcome: Result<(), I2C::Error>) -> (result: Result<
        Self,
        I2C::Error,
    >)
        ensures
            Self::constructed(self, outcome, result),
            outcome is Ok <==> result is Ok,
    {
        match outcome {
            Ok(_) => Ok(self),
            Err(e) => Err(e),
        }
    }

    /// Reset the PCA9685: writes the restart bit to mode-1. The chip needs
    /// about five milliseconds afterwards before it takes further requests;
    /// `reset_and_settle` waits for that.
    pub fn reset(&mut self) -> (result: Result<(), I2C::Error>)
        ensures
            final(self).ran(old(self), reset_script(), result),
    {
        self.write_register(Register::MODE1, Mode1::RESTART)
    }

    /// Reset the PCA9685 and give it time to settle: writes the restart bit to
    /// mode-1 and, where that succeeded, waits `RESET_SETTLE_MS` milliseconds
    /// on `delay` before returning. Where the write fails there is no wait.
    pub fn reset_and_settle<D: Delay>(&mut self, delay: &mut D) -> (result: Result<
        (),
        I2C::Error,
    >)
        ensures
            final(self).ran(old(self), settle_script(), result),
    {
        let ghost start = *self;
        let result = self.reset();
        let ghost middle = *self;
        match result {
            Ok(_) => {
                self.i2c.wait(delay, RESET_SETTLE_MS);
                proof {
                    let pause = seq![Request::Wait { milliseconds: 5 }];
                    lemma_ok_is_unit(result);
                    assert(self.issued_since(&middle) =~= seq![waited(RESET_SETTLE_MS)]);
                    self.lemma_ran_then(&start, &middle, reset_script(), pause, result);
                }
            },
            Err(_) => {
                proof {
                    self.lemma_ran_abort(
                        &start,
                        reset_script(),
                        seq![Request::Wait { milliseconds: 5 }],
                        result,
                    );
                }
            },
        }
        result
    }

    /// The bus that the driver owns.
    pub fn bus(&self) -> (bus: &I2C)
        ensures
            *bus == self.transport(),
    {
        self.i2c.bus()
    }

    /// Gives up the driver and hands back its bus.
    pub fn release(self) -> (bus: I2C)
        ensures
            bus == self.transport(),
    {
        self.i2c.release()
    }

    /// Initialize the PCA9685: writes `0x01` to mode-1.
    fn init(&mut self) -> (result: Result<(), I2C::Error>)
        ensures
            final(self).ran(old(self), init_script(), result),
    {
        self.write_register(Register::MODE1, 0x01)
    }

    /// Reads mode-1 and writes it back with the sleep bit set (`sleep`) or
    /// cleared; every other bit is written back as it was read.
    fn update_sleep_bit(&mut self, sleep: bool) -> (result: Result<(), I2C::Error>)
        ensures
            final(self).ran(
                old(self),
                mode1_script(sleep, byte_read_at(final(self).issued_since(old(self)), 0)),
                result,
            ),
            final(self).issued_since(old(self)).len() >= 1,
    {
        let ghost start = *self;
        let mode1 = match self.read_register(Register::MODE1) {
            Ok(mode1) => mode1,
            Err(e) => {
                proof {
                    let head = seq![Request::Read { register: 0x00 }];
                    self.lemma_ran_abort(&start, head, mode1_script(sleep, 0).skip(1), Err(e));
                    assert(head + mode1_script(sleep, 0).skip(1) =~= mode1_script(
                        sleep,
                        byte_read_at(self.issued_since(&start), 0),
                    ));
                }
                return Err(e);
            },
        };
        let ghost middle = *self;
        let value = if sleep {
            mode1 | Mode1::SLEEP
        } else {
            mode1 & !Mode1::SLEEP
        };
        let result = self.write_register(Register::MODE1, value);
        proof {
            let head = seq![Request::Read { register: 0x00 }];
            let tail = seq![Request::Write { register: 0x00, value }];
            self.lemma_ran_then(&start, &middle, head, tail, result);
            assert(head + tail =~= mode1_script(sleep, mode1));
        }
        result
    }

    /// Use low power mode: reads mode-1 and writes it back with the sleep
    /// bit set and every other bit as it was read. Where the read fails
    /// nothing is written.
    pub fn sleep(&mut self) -> (result: Result<(), I2C::Error>)
        ensures
            final(self).ran(
                old(self),
                mode1_script(true, byte_read_at(final(self).issued_since(old(self)), 0)),
                result,
            ),
    {
        self.update_sleep_bit(true)
    }

    /// Wake up from low power mode: reads mode-1 and writes it back with the
    /// sleep bit cleared and every other bit as it was read. Where the read
    /// fails nothing is written.
    pub fn wake(&mut self) -> (result: Result<(), I2C::Error>)
        ensures
            final(self).ran(
                old(self),
                mode1_script(false, byte_read_at(final(self).issued_since(old(self)), 0)),
                result,
            ),
    {
        self.update_sleep_bit(false)
    }

    /// Set the PWM frequency, in hertz. The prescale register takes a value
    /// only while the oscillator is stopped, so the order is: sleep, write
    /// the prescale value, wake. The first failure ends the sequence and is
    /// returned; nothing is rolled back.
    pub fn set_pwm_frequency(&mut self, frequency_hz: u32) -> (result: Result<(), I2C::Error>)
        ensures
            final(self).ran(
                old(self),
                frequency_script(
                    prescale_for(frequency_hz as int) as u8,
                    byte_read_at(final(self).issued_since(old(self)), 0),
                    byte_read_at(final(self).issued_since(old(self)), 3),
                ),
                result,
            ),
    {
        let prescale = prescale_for_frequency(frequency_hz);
        let ghost start = *self;
        let ghost store = seq![Request::Write { register: 0xFE, value: prescale }];
        match self.sleep() {
            Ok(done) => {
                proof {
                    lemma_ok_is_unit::<I2C::Error>(Ok(done));
                }
            },
            Err(e) => {
                proof {
                    let before = byte_read_at(self.issued_since(&start), 0);
                    let during = byte_read_at(self.issued_since(&start), 3);
                    self.lemma_ran_abort(
                        &start,
                        mode1_script(true, before),
                        store + mode1_script(false, during),
                        Err(e),
                    );
                    assert(mode1_script(true, before) + (store + mode1_script(false, during))
                        =~= frequency_script(prescale, before, during));
                }
                return Err(e);
            },
        }
        let ghost slept = *self;
        let ghost before = byte_read_at(slept.issued_since(&start), 0);
        match self.write_register(Register::PRESCALE, prescale) {
            Ok(done) => {
                proof {
                    lemma_ok_is_unit::<I2C::Error>(Ok(done));
                }
            },
            Err(e) => {
                proof {
                    self.lemma_ran_then(&start, &slept, mode1_script(true, before), store, Err(e));
                    let during = byte_read_at(self.issued_since(&start), 3);
                    self.lemma_ran_abort(
                        &start,
                        mode1_script(true, before) + store,
                        mode1_script(false, during),
                        Err(e),
                    );
                }
                return Err(e);
            },
        }
        let ghost stored = *self;
        proof {
            stored.lemma_ran_then(&start, &slept, mode1_script(true, before), store, Ok(()));
        }
        let result = self.wake();
        proof {
            let during = byte_read_at(self.issued_since(&stored), 0);
            self.lemma_ran_then(
                &start,
                &stored,
                mode1_script(true, before) + store,
                mode1_script(false, during),
                result,
            );
            assert(self.issued_since(&start)[3] == self.issued_since(&stored)[0]);
        }
        result
    }

    /// Carries out the write at position `k` of `script`, the requests before
    /// it having succeeded.
    fn write_step(
        &mut self,
        reg: u8,
        value: u8,
        Ghost(start): Ghost<Self>,
        Ghost(script): Ghost<Seq<Request>>,
        Ghost(k): Ghost<int>,
    ) -> (result: Result<(), I2C::Error>)
        requires
            0 <= k < script.len(),
            script[k] == (Request::Write { register: reg, value }),
            old(self).ran(&start, script.take(k), Ok(())),
        ensures
            result is Ok ==> final(self).ran(&start, script.take(k + 1), Ok(())),
            result is Err ==> final(self).ran(&start, script, result),
    {
        let ghost middle = *self;
        let result = self.write_register(reg, value);
        proof {
            let step = seq![Request::Write { register: reg, value }];
            self.lemma_ran_then(&start, &middle, script.take(k), step, result);
            assert(script.take(k) + step =~= script.take(k + 1));
            if result is Err {
                self.lemma_ran_abort(&start, script.take(k + 1), script.skip(k + 1), result);
                assert(script.take(k + 1) + script.skip(k + 1) =~= script);
            } else {
                lemma_ok_is_unit(result);
            }
        }
        result
    }

    /// Set the PWM for a channel: four single-byte writes to the channel's
    /// registers, in the order on-low, on-high, off-low, off-high, each tick
    /// count split into its low and its high byte. The first write that
    /// fails ends the sequence and its error is returned; the writes before
    /// it stand.
    pub fn set_pwm(&mut self, channel: Channel, on: u16, off: u16) -> (result: Result<
        (),
        I2C::Error,
    >)
        ensures
            final(self).ran(old(self), pwm_script(channel, on, off), result),
    {
        let base = channel.base_register();
        let ghost start = *self;
        let ghost script = pwm_script(channel, on, off);
        proof {
            assert(on & 0xFF == on % 256) by (bit_vector);
            assert(on >> 8 == on / 256) by (bit_vector);
            assert(off & 0xFF == off % 256) by (bit_vector);
            assert(off >> 8 == off / 256) by (bit_vector);
            assert(self.issued_since(&start) =~= Seq::empty());
            assert(script.take(0) =~= Seq::empty());
            assert(script.take(4) =~= script);
        }
        self.write_step(base, (on & 0xFF) as u8, Ghost(start), Ghost(script), Ghost(0))?;
        self.write_step(base + 1, (on >> 8) as u8, Ghost(start), Ghost(script), Ghost(1))?;
        self.write_step(base + 2, (off & 0xFF) as u8, Ghost(start), Ghost(script), Ghost(2))?;
        let result = self.write_step(
            base + 3,
            (off >> 8) as u8,
            Ghost(start),
            Ghost(script),
            Ghost(3),
        );
        proof {
            if result is Ok {
                lemma_ok_is_unit(result);
            }
        }
        result
    }

    /// Write a byte to a register: one write of the register and the value
    /// to the device. The bus's result is returned as it is.
    pub fn write_register(&mut self, reg: u8, value: u8) -> (result: Result<(), I2C::Error>)
        ensures
            final(self).address() == old(self).address(),
            final(self).history() == old(self).history().push(
                written(old(self).address(), seq![reg, value], result),
            ),
            final(self).ran(old(self), seq![Request::Write { register: reg, value }], result),
    {
        let buf = [reg, value];
        let result = self.i2c.write(self.address, &buf);
        proof {
            let record = written(self.address, seq![reg, value], result);
            assert(buf@ =~= seq![reg, value]);
            assert(self.issued_since(old(self)) =~= seq![record]);
        }
        result
    }

    /// Read a byte from a register: one transaction that sends the register
    /// and reads one byte back. The bus's error is returned as it is.
    pub fn read_register(&mut self, reg: u8) -> (result: Result<u8, I2C::Error>)
        ensures
            final(self).address() == old(self).address(),
            final(self).ran(
                old(self),
                seq![Request::Read { register: reg }],
                match result {
                    Ok(_) => Ok(()),
                    Err(e) => Err(e),
                },
            ),
            final(self).issued_since(old(self)).len() == 1,
            result matches Ok(value) ==> value == byte_read(final(self).issued_since(old(self))[0]),
    {
        let mut buf = [0u8];
        let out = [reg];
        let result = self.i2c.write_read(self.address, &out, &mut buf);
        proof {
            let record = exchanged(self.address, seq![reg], buf@, result);
            assert(out@ =~= seq![reg]);
            assert(self.issued_since(old(self)) =~= seq![record]);
        }
        match result {
            Ok(_) => Ok(buf[0]),
            Err(e) => Err(e),
        }
    }
}

} // verus!
