//! One leg of the mechanism: three joints, each bound to an output channel.

use crate::pca9685::Channel;
use vstd::prelude::*;

verus! {

/// A leg with three joints. Angles are in whole degrees, lengths in
/// millimetres. The lengths take no part in any computation yet.
#[derive(Clone, Copy, Debug)]
pub struct Leg {
    pub coxa_length: u32,
    pub femur_length: u32,
    pub tibia_length: u32,
    pub coxa_angle: u16,
    pub femur_angle: u16,
    pub tibia_angle: u16,
    pub coxa_channel: Channel,
    pub femur_channel: Channel,
    pub tibia_channel: Channel,
}

impl Leg {
    /// The leg on the three given channels with every length and every angle
    /// at zero.
    pub open spec fn at_rest(
        coxa_channel: Channel,
        femur_channel: Channel,
        tibia_channel: Channel,
    ) -> Leg {
        Leg {
            coxa_length: 0,
            femur_length: 0,
            tibia_length: 0,
            coxa_angle: 0,
            femur_angle: 0,
            tibia_angle: 0,
            coxa_channel,
            femur_channel,
            tibia_channel,
        }
    }

    /// This leg with its three angles replaced, and nothing else changed.
    pub open spec fn with_angles(self, coxa_angle: u16, femur_angle: u16, tibia_angle: u16) -> Leg {
        Leg { coxa_angle, femur_angle, tibia_angle, ..self }
    }

    /// A leg whose joints are driven by the three given channels, with every
    /// length and every angle at zero.
    pub fn new(coxa_channel: Channel, femur_channel: Channel, tibia_channel: Channel) -> (leg:
        Self)
        ensures
            leg == Leg::at_rest(coxa_channel, femur_channel, tibia_channel),
    {
        Leg {
            coxa_length: 0,
            femur_length: 0,
            tibia_length: 0,
            coxa_angle: 0,
            femur_angle: 0,
            tibia_angle: 0,
            coxa_channel,
            femur_channel,
            tibia_channel,
        }
    }
}

} // verus!
