//! The pump, driven through a digital output.
use vstd::prelude::*;

use crate::hardware::digital_output::{switched_off, switched_on, DigitalOutput, DigitalOutputView};
use crate::interface::Switchable;

verus! {

/// The pump, running while its output is high.
pub struct Pump {
    output: DigitalOutput,
}

impl View for Pump {
    type V = DigitalOutputView;

    closed spec fn view(&self) -> DigitalOutputView {
        self.output@
    }
}

impl Pump {
    /// The pump on `pin`, found at the level `is_high`.
    pub fn new(pin: i32, is_high: bool) -> (p: Self)
        ensures
            p@ == (DigitalOutputView {
                pin: pin,
                is_high: is_high,
                time_switched_on: None,
                time_switched_off: None,
            }),
    {
        let output = DigitalOutput::new(pin, is_high);
        Pump { output }
    }

    /// The output that drives the pump.
    pub fn output(&self) -> (o: &DigitalOutput)
        ensures
            o@ == self@,
    {
        &self.output
    }
}

impl Switchable for Pump {
    closed spec fn spec_is_on(&self) -> bool {
        self@.is_high
    }

    fn switch_on(&mut self, now_ms: u64)
        ensures
            final(self)@ == switched_on(old(self)@, now_ms),
    {
        self.output.switch_on(now_ms);
    }

    fn switch_off(&mut self, now_ms: u64)
        ensures
            final(self)@ == switched_off(old(self)@, now_ms),
    {
        self.output.switch_off(now_ms);
    }
}

} // verus!
