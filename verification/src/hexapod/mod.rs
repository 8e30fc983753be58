//! The mechanism: an ordered collection of legs on one servo controller, and
//! the mapping of joint angles to pulse widths.

pub mod leg;

use crate::bus::Bus;
use crate::pca9685::{
    frequency_script, init_script, prescale_for, pwm_script, reset_script, rounded_quotient,
    Address, Channel, PCA9685,
};
use crate::script::{byte_read_at, lemma_ok_is_unit, Request};
use leg::Leg;
use vstd::prelude::*;

verus! {

/// Pulse width, in ticks, at which a servo stands at 0 degrees.
pub const SERVO_MIN: u16 = 120;

/// Pulse width, in ticks, at which a servo stands at 180 degrees.
pub const SERVO_MAX: u16 = 530;

/// Output frequency that hobby servos expect, in hertz.
pub const SERVO_FREQUENCY: u32 = 50;

/// `angle` held to the servo's travel of 0 to 180 degrees.
pub open spec fn within_travel(angle: int) -> int {
    if angle < 0 {
        0
    } else if angle > 180 {
        180
    } else {
        angle
    }
}

/// The pulse width for a joint angle: the point between `min` (at 0 degrees)
/// and `max` (at 180 degrees) that lies as far along as the angle does,
/// rounded to the nearest tick. An angle beyond 180 degrees counts as 180.
pub open spec fn pulse_for(angle: int, min: int, max: int) -> int {
    rounded_quotient(180 * min + within_travel(angle) * (max - min), 180)
}

/// At 0 degrees the pulse is `min`, at 180 degrees and beyond it is `max`,
/// and at 90 degrees it is their mean, a half rounded upwards.
pub proof fn lemma_pulse_at_ends_and_middle(min: int, max: int, beyond: int)
    requires
        0 <= min,
        0 <= max,
        180 <= beyond,
    ensures
        pulse_for(0, min, max) == min,
        pulse_for(180, min, max) == max,
        pulse_for(beyond, min, max) == max,
        pulse_for(90, min, max) == rounded_quotient(min + max, 2),
        pulse_for(90, min, max) == (min + max + 1) / 2,
{
    let span = max - min;
    assert(within_travel(0) * span == 0) by (nonlinear_arith);
    assert(within_travel(90) * span == 90 * span) by (nonlinear_arith);
    assert(within_travel(180) * span == 180 * span) by (nonlinear_arith);
    assert(within_travel(beyond) * span == 180 * span) by (nonlinear_arith)
        requires
            180 <= beyond,
    ;
    assert((2 * (180 * min + 0) + 180) / 360 == min);
    assert((2 * (180 * min + 180 * span) + 180) / 360 == max);
    assert((2 * (180 * min + 90 * span) + 180) / 360 == (2 * (min + max) + 2) / 4);
}

/// The pulse never leaves the span between `min` and `max`, whichever of
/// the two is the larger.
pub proof fn lemma_pulse_within_span(angle: int, min: int, max: int)
    requires
        0 <= min,
        0 <= max,
    ensures
        min <= max ==> min <= pulse_for(angle, min, max) <= max,
        max <= min ==> max <= pulse_for(angle, min, max) <= min,
{
    let within = within_travel(angle);
    let span = max - min;
    let part = within * span;
    assert(span >= 0 ==> 0 <= part <= 180 * span) by (nonlinear_arith)
        requires
            0 <= within <= 180,
            part == within * span,
    ;
    assert(span <= 0 ==> 180 * span <= part <= 0) by (nonlinear_arith)
        requires
            0 <= within <= 180,
            part == within * span,
    ;
    assert(pulse_for(angle, min, max) == (2 * (180 * min + part) + 180) / 360);
}

/// A larger angle never gives a smaller pulse where `min <= max`.
pub proof fn lemma_pulse_monotonic(lower: int, higher: int, min: int, max: int)
    requires
        lower <= higher,
        0 <= min <= max,
    ensures
        pulse_for(lower, min, max) <= pulse_for(higher, min, max),
{
    let a = within_travel(lower);
    let b = within_travel(higher);
    let span = max - min;
    assert(a * span <= b * span) by (nonlinear_arith)
        requires
            a <= b,
            span >= 0,
    ;
    assert(pulse_for(lower, min, max) == (2 * (180 * min + a * span) + 180) / 360);
    assert(pulse_for(higher, min, max) == (2 * (180 * min + b * span) + 180) / 360);
}

/// The pulse width for a joint angle in degrees, between the pulse `min` of
/// 0 degrees and the pulse `max` of 180 degrees. An angle above 180 degrees
/// is taken as 180, so that the pulse stays between the two.
pub fn angle_to_pulse(angle_degrees: u16, min: u16, max: u16) -> (pulse: u16)
    ensures
        pulse == pulse_for(angle_degrees as int, min as int, max as int),
        min <= max ==> min <= pulse <= max,
        max <= min ==> max <= pulse <= min,
{
    let within: u64 = if angle_degrees > 180 {
        180
    } else {
        angle_degrees as u64
    };
    proof {
        lemma_pulse_within_span(angle_degrees as int, min as int, max as int);
    }
    if min <= max {
        let span: u64 = (max - min) as u64;
        assert(within * span <= 180 * span) by (nonlinear_arith)
            requires
                0 <= within <= 180,
                span >= 0,
        ;
        let doubled: u64 = 360 * (min as u64) + 2 * (within * span) + 180;
        (doubled / 360) as u16
    } else {
        let span: u64 = (min - max) as u64;
        assert(within * span <= 180 * span) by (nonlinear_arith)
            requires
                0 <= within <= 180,
                span >= 0,
        ;
        assert(within * (max - min) == -(within * span)) by (nonlinear_arith)
            requires
                span == min - max,
        ;
        let doubled: u64 = 360 * (min as u64) + 180 - 2 * (within * span);
        (doubled / 360) as u16
    }
}

/// The requests that bring a chip up for servos: initialise, reset, then
/// change the frequency to that of the servos. `before` and `during` are
/// what the two reads of mode-1 in the frequency change bring.
pub open spec fn startup_script(before: u8, during: u8) -> Seq<Request> {
    init_script() + reset_script() + frequency_script(
        prescale_for(SERVO_FREQUENCY as int) as u8,
        before,
        during,
    )
}

/// The requests that move a leg's three joints to the given angles: the pulse
/// window of the coxa's channel, then the femur's, then the tibia's, each
/// switched on at tick 0 and off at the angle's pulse width.
pub open spec fn leg_script(leg: Leg, coxa_angle: u16, femur_angle: u16, tibia_angle: u16) -> Seq<
    Request,
> {
    pwm_script(leg.coxa_channel, 0, servo_pulse(coxa_angle)) + pwm_script(
        leg.femur_channel,
        0,
        servo_pulse(femur_angle),
    ) + pwm_script(leg.tibia_channel, 0, servo_pulse(tibia_angle))
}

/// The pulse width of `angle` between `SERVO_MIN` and `SERVO_MAX`.
pub open spec fn servo_pulse(angle: u16) -> u16 {
    pulse_for(angle as int, SERVO_MIN as int, SERVO_MAX as int) as u16
}

/// A set of legs on one servo controller.
pub struct Hexapod<I2C: Bus> {
    legs: Vec<Leg>,
    servo_controller: PCA9685<I2C>,
}

impl<I2C: Bus> Hexapod<I2C> {
    /// The legs, in the order of their indices.
    pub closed spec fn legs(&self) -> Seq<Leg> {
        self.legs@
    }

    /// The servo controller that drives the legs.
    pub closed spec fn controller(&self) -> PCA9685<I2C> {
        self.servo_controller
    }

    /// `after` is `idle` after the start-up requests were carried out up to
    /// the first failure, with `result`.
    pub open spec fn started(after: &PCA9685<I2C>, idle: &PCA9685<I2C>, result: Result<
        (),
        I2C::Error,
    >) -> bool {
        after.ran(
            idle,
            startup_script(
                byte_read_at(after.issued_since(idle), 2),
                byte_read_at(after.issued_since(idle), 5),
            ),
            result,
        )
    }

    /// Brings up the controller at `address` on `i2c` (initialise, reset, set
    /// the servo frequency) and binds one leg to channels 0, 1 and 2. The
    /// first request that fails ends the start-up, and its error is returned;
    /// the bus is given up with it. Whether a request succeeds is for the bus
    /// to say; `assemble` says what is returned either way.
    pub fn new(i2c: I2C, address: Address) -> (result: Result<Self, I2C::Error>)
        ensures
            Self::brought_up(i2c, address, result),
            result matches Ok(hexapod) ==> {
                &&& hexapod.legs() == seq![Leg::at_rest(Channel::C0, Channel::C1, Channel::C2)]
                &&& hexapod.controller().address() == address.0
                &&& Self::started(&hexapod.controller(), &PCA9685::idle(i2c, address), Ok(()))
            },
    {
        let ghost idle = PCA9685::idle(i2c, address);
        let ghost prescale = prescale_for(SERVO_FREQUENCY as int) as u8;
        let mut servo_controller = match PCA9685::new(i2c, address) {
            Ok(servo_controller) => servo_controller,
            Err(e) => {
                proof {
                    let (after, outcome) = choose|
                        after: PCA9685<I2C>,
                        outcome: Result<(), I2C::Error>,
                    |
                        #[trigger] after.ran(&idle, init_script(), outcome)
                            && PCA9685::constructed(after, outcome, Err(e));
                    let before = byte_read_at(after.issued_since(&idle), 2);
                    let during = byte_read_at(after.issued_since(&idle), 5);
                    let rest = reset_script() + frequency_script(prescale, before, during);
                    after.lemma_ran_abort(&idle, init_script(), rest, outcome);
                    assert(init_script() + rest =~= startup_script(before, during));
                    assert(Self::started(&after, &idle, outcome));
                    assert(Self::assembled(after, outcome, Err(e)));
                }
                return Err(e);
            },
        };
        let ghost initialised = servo_controller;
        let reset = servo_controller.reset();
        let ghost restarted = servo_controller;
        proof {
            restarted.lemma_ran_then(&idle, &initialised, init_script(), reset_script(), reset);
        }
        let outcome = match reset {
            Ok(_) => {
                let changed = servo_controller.set_pwm_frequency(SERVO_FREQUENCY);
                proof {
                    let before = byte_read_at(servo_controller.issued_since(&restarted), 0);
                    let during = byte_read_at(servo_controller.issued_since(&restarted), 3);
                    lemma_ok_is_unit(reset);
                    servo_controller.lemma_ran_then(
                        &idle,
                        &restarted,
                        init_script() + reset_script(),
                        frequency_script(prescale, before, during),
                        changed,
                    );
                    assert(before == byte_read_at(servo_controller.issued_since(&idle), 2));
                    assert(during == byte_read_at(servo_controller.issued_since(&idle), 5));
                }
                changed
            },
            Err(e) => {
                proof {
                    let before = byte_read_at(servo_controller.issued_since(&idle), 2);
                    let during = byte_read_at(servo_controller.issued_since(&idle), 5);
                    servo_controller.lemma_ran_abort(
                        &idle,
                        init_script() + reset_script(),
                        frequency_script(prescale, before, during),
                        reset,
                    );
                }
                Err(e)
            },
        };
        let ghost after = servo_controller;
        proof {
            if outcome is Ok {
                lemma_ok_is_unit(outcome);
            }
            assert(Self::started(&after, &idle, outcome));
        }
        Self::assemble(servo_controller, outcome)
    }

    /// What construction returns once the start-up has brought the controller
    /// to `after` with `outcome`: where it succeeded, a hexapod on that
    /// controller with one leg at rest on channels 0, 1 and 2; where it
    /// failed, the bus's error, unchanged.
    pub open spec fn assembled(
        after: PCA9685<I2C>,
        outcome: Result<(), I2C::Error>,
        result: Result<Self, I2C::Error>,
    ) -> bool {
        match outcome {
            Ok(_) => result matches Ok(hexapod) && hexapod.controller() == after && hexapod.legs()
                == seq![Leg::at_rest(Channel::C0, Channel::C1, Channel::C2)],
            Err(e) => result matches Err(error) && error == e,
        }
    }

    /// `result` is what comes of construction on `i2c` for `address`: from
    /// an idle controller the start-up requests were carried out up to the
    /// first failure, those and nothing else, and the outcome decided what
    /// was returned.
    pub open spec fn brought_up(i2c: I2C, address: Address, result: Result<
        Self,
        I2C::Error,
    >) -> bool {
        exists|after: PCA9685<I2C>, outcome: Result<(), I2C::Error>|
            #[trigger] Self::started(&after, &PCA9685::idle(i2c, address), outcome)
                && Self::assembled(after, outcome, result)
    }

    /// Ends a construction: where `outcome`, the result of the start-up on
    /// `servo_controller`, is a success, binds one leg to channels 0, 1 and
    /// 2 and hands out the hexapod; where it is a failure, gives the
    /// controller up for the error.
    pub fn assemble(servo_controller: PCA9685<I2C>, outcome: Result<(), I2C::Error>) -> (result:
        Result<Self, I2C::Error>)
        ensures
            Self::assembled(servo_controller, outcome, result),
            outcome is Ok <==> result is Ok,
    {
        match outcome {
            Ok(_) => {
                let mut legs = Vec::new();
                legs.push(Leg::new(Channel::C0, Channel::C1, Channel::C2));
                assert(legs@ =~= seq![Leg::at_rest(Channel::C0, Channel::C1, Channel::C2)]);
                Ok(Hexapod { legs, servo_controller })
            },
            Err(e) => Err(e),
        }
    }

    /// The servo controller that drives the legs.
    pub fn servo_controller(&self) -> (controller: &PCA9685<I2C>)
        ensures
            *controller == self.controller(),
    {
        &self.servo_controller
    }

    /// Adds a leg behind those that are there; its index is their number.
    pub fn add_leg(&mut self, leg: Leg)
        ensures
            final(self).legs() == old(self).legs().push(leg),
            final(self).controller() == old(self).controller(),
    {
        self.legs.push(leg);
    }

    /// The leg at `leg_index`, where there is one.
    pub fn leg(&self, leg_index: usize) -> (leg: Option<Leg>)
        ensures
            leg_index < self.legs().len() ==> leg == Some(self.legs()[leg_index as int]),
            leg_index >= self.legs().len() ==> leg is None,
    {
        if leg_index < self.legs.len() {
            Some(self.legs[leg_index])
        } else {
            None
        }
    }

    /// Moves the joints of the leg at `leg_index` to the given angles, in
    /// degrees.
    ///
    /// Where there is no such leg, nothing happens: no angle is stored,
    /// nothing is put on the bus, and the call succeeds. Otherwise the three
    /// angles are stored in the leg as given, and the pulse windows of its
    /// coxa, femur and tibia channels are set, in that order, each from tick
    /// 0 to the angle's pulse width. The first request that fails ends the
    /// sequence and its error is returned; the angles stay stored even so.
    pub fn update_leg_angles(
        &mut self,
        leg_index: usize,
        coxa_angle: u16,
        femur_angle: u16,
        tibia_angle: u16,
    ) -> (result: Result<(), I2C::Error>)
        ensures
            leg_index >= old(self).legs().len() ==> {
                &&& result is Ok
                &&& final(self).legs() == old(self).legs()
                &&& final(self).controller() == old(self).controller()
            },
            leg_index < old(self).legs().len() ==> {
                &&& final(self).legs() == old(self).legs().update(
                    leg_index as int,
                    old(self).legs()[leg_index as int].with_angles(
                        coxa_angle,
                        femur_angle,
                        tibia_angle,
                    ),
                )
                &&& final(self).controller().ran(
                    &old(self).controller(),
                    leg_script(
                        old(self).legs()[leg_index as int],
                        coxa_angle,
                        femur_angle,
                        tibia_angle,
                    ),
                    result,
                )
            },
    {
        if leg_index >= self.legs.len() {
            return Ok(());
        }
        let ghost start = self.servo_controller;
        let mut leg = self.legs[leg_index];
        leg.coxa_angle = coxa_angle;
        leg.femur_angle = femur_angle;
        leg.tibia_angle = tibia_angle;
        self.legs.set(leg_index, leg);

        let coxa_pwm = Self::angle_to_pwm(coxa_angle);
        let femur_pwm = Self::angle_to_pwm(femur_angle);
        let tibia_pwm = Self::angle_to_pwm(tibia_angle);
        let ghost coxa = pwm_script(leg.coxa_channel, 0, coxa_pwm);
        let ghost femur = pwm_script(leg.femur_channel, 0, femur_pwm);
        let ghost tibia = pwm_script(leg.tibia_channel, 0, tibia_pwm);

        let first = self.servo_controller.set_pwm(leg.coxa_channel, 0, coxa_pwm);
        if let Err(e) = first {
            proof {
                self.servo_controller.lemma_ran_abort(&start, coxa, femur + tibia, first);
                assert(coxa + (femur + tibia) =~= coxa + femur + tibia);
            }
            return Err(e);
        }
        proof {
            lemma_ok_is_unit(first);
        }
        let ghost middle = self.servo_controller;
        let second = self.servo_controller.set_pwm(leg.femur_channel, 0, femur_pwm);
        proof {
            self.servo_controller.lemma_ran_then(&start, &middle, coxa, femur, second);
        }
        if let Err(e) = second {
            proof {
                self.servo_controller.lemma_ran_abort(&start, coxa + femur, tibia, second);
            }
            return Err(e);
        }
        proof {
            lemma_ok_is_unit(second);
        }
        let ghost late = self.servo_controller;
        let third = self.servo_controller.set_pwm(leg.tibia_channel, 0, tibia_pwm);
        proof {
            self.servo_controller.lemma_ran_then(&start, &late, coxa + femur, tibia, third);
        }
        third
    }

    /// The pulse width for a joint angle in degrees, between `SERVO_MIN` at 0
    /// degrees and `SERVO_MAX` at 180 degrees and beyond.
    pub fn angle_to_pwm(angle: u16) -> (pulse: u16)
        ensures
            pulse == servo_pulse(angle),
            SERVO_MIN <= pulse <= SERVO_MAX,
    {
        angle_to_pulse(angle, SERVO_MIN, SERVO_MAX)
    }
}

} // verus!
