//! Driver for the PCA9685 sixteen-channel PWM controller, and the mapping of a
//! leg's joint angles onto its channels.

pub mod bus;
pub mod delay;
pub mod script;
pub mod recorder;
pub mod simulation;
pub mod pca9685;
pub mod hexapod;
