//! What the firmware can switch.
use vstd::prelude::*;

verus! {

/// Something that can be switched on and off, such as the pump.  The time
/// of the change, in milliseconds on the firmware's clock, comes with each
/// order.
pub trait Switchable {
    /// It is switched on.
    spec fn spec_is_on(&self) -> bool;

    fn switch_on(&mut self, now_ms: u64)
        ensures
            final(self).spec_is_on(),
    ;

    fn switch_off(&mut self, now_ms: u64)
        ensures
            !final(self).spec_is_on(),
    ;
}

} // verus!
