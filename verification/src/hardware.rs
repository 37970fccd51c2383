//! The hardware that the firmware drives: digital output pins and the pump.
pub mod digital_output;
pub mod pump;

pub use digital_output::DigitalOutput;
pub use pump::Pump;
