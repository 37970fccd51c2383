//! A digital output pin: its level and when it last went high and low.
//!
//! The pin itself is driven by the caller; this keeps the record of what was
//! ordered.  Times are milliseconds on the firmware's clock.
use vstd::prelude::*;

verus! {

/// What a digital output is: its pin, its level, and the times of its last
/// switch on and last switch off.
pub struct DigitalOutputView {
    pub pin: i32,
    pub is_high: bool,
    pub time_switched_on: Option<u64>,
    pub time_switched_off: Option<u64>,
}

/// The output after it is switched on at `now`: it is high, and where it was
/// low, `now` is the time it was switched on.
pub open spec fn switched_on(v: DigitalOutputView, now: u64) -> DigitalOutputView {
    DigitalOutputView {
        is_high: true,
        time_switched_on: if v.is_high {
            v.time_switched_on
        } else {
            Some(now)
        },
        ..v
    }
}

/// The output after it is switched off at `now`: it is low, and where it was
/// high, `now` is the time it was switched off.
pub open spec fn switched_off(v: DigitalOutputView, now: u64) -> DigitalOutputView {
    DigitalOutputView {
        is_high: false,
        time_switched_off: if v.is_high {
            Some(now)
        } else {
            v.time_switched_off
        },
        ..v
    }
}

/// The output after it is turned over at `now`.
pub open spec fn toggled(v: DigitalOutputView, now: u64) -> DigitalOutputView {
    if v.is_high {
        switched_off(v, now)
    } else {
        switched_on(v, now)
    }
}

/// A digital output pin.
pub struct DigitalOutput {
    pin: i32,
    is_high: bool,
    time_switched_on: Option<u64>,
    time_switched_off: Option<u64>,
}

impl View for DigitalOutput {
    type V = DigitalOutputView;

    closed spec fn view(&self) -> DigitalOutputView {
        DigitalOutputView {
            pin: self.pin,
            is_high: self.is_high,
            time_switched_on: self.time_switched_on,
            time_switched_off: self.time_switched_off,
        }
    }
}

impl DigitalOutput {
    /// The output on `pin`, found at the level `is_high`, never switched.
    pub fn new(pin: i32, is_high: bool) -> (d: Self)
        ensures
            d@ == (DigitalOutputView {
                pin: pin,
                is_high: is_high,
                time_switched_on: None,
                time_switched_off: None,
            }),
    {
        DigitalOutput { pin, is_high, time_switched_on: None, time_switched_off: None }
    }

    pub fn pin(&self) -> (p: i32)
        ensures
            p == self@.pin,
    {
        self.pin
    }

    pub fn is_on(&self) -> (r: bool)
        ensures
            r == self@.is_high,
    {
        self.is_high
    }

    /// Records that the pin was set high at `now_ms`.
    pub fn switch_on(&mut self, now_ms: u64)
        ensures
            final(self)@ == switched_on(old(self)@, now_ms),
    {
        let switched = !self.is_high;
        self.is_high = true;
        if switched {
            self.time_switched_on = Some(now_ms);
        }
    }

    /// Records that the pin was set low at `now_ms`.
    pub fn switch_off(&mut self, now_ms: u64)
        ensures
            final(self)@ == switched_off(old(self)@, now_ms),
    {
        let switched = self.is_high;
        self.is_high = false;
        if switched {
            self.time_switched_off = Some(now_ms);
        }
    }

    /// Records that the pin was turned over at `now_ms`.
    pub fn toggle(&mut self, now_ms: u64)
        ensures
            final(self)@ == toggled(old(self)@, now_ms),
    {
        if self.is_high {
            self.switch_off(now_ms);
        } else {
            self.switch_on(now_ms);
        }
    }

    pub fn time_switched_on(&self) -> (t: Option<u64>)
        ensures
            t == self@.time_switched_on,
    {
        self.time_switched_on
    }

    pub fn time_switched_off(&self) -> (t: Option<u64>)
        ensures
            t == self@.time_switched_off,
    {
        self.time_switched_off
    }
}

/// Switching on an output that is already high changes nothing: the time
/// of the first switch on stays.
pub proof fn law_switch_on_keeps_first_time(v: DigitalOutputView, t1: u64, t2: u64)
    ensures
        switched_on(switched_on(v, t1), t2) == switched_on(v, t1),
{
}

/// Switching off an output that is already low changes nothing: the time of
/// the first switch off stays.
pub proof fn law_switch_off_keeps_first_time(v: DigitalOutputView, t1: u64, t2: u64)
    ensures
        switched_off(switched_off(v, t1), t2) == switched_off(v, t1),
{
}

/// Turning an output over twice brings back its level, and records both
/// changes.
pub proof fn law_toggle_twice(v: DigitalOutputView, t1: u64, t2: u64)
    ensures
        toggled(toggled(v, t1), t2).is_high == v.is_high,
        toggled(toggled(v, t1), t2).pin == v.pin,
        v.is_high ==> toggled(toggled(v, t1), t2).time_switched_off == Some(t1)
            && toggled(toggled(v, t1), t2).time_switched_on == Some(t2),
        !v.is_high ==> toggled(toggled(v, t1), t2).time_switched_on == Some(t1)
            && toggled(toggled(v, t1), t2).time_switched_off == Some(t2),
{
}

/// Switching on makes the output high and keeps its pin and its last switch
/// off; the time of the switch on is `now` where the output was low.
pub proof fn law_switch_on_records(v: DigitalOutputView, now: u64)
    ensures
        switched_on(v, now).is_high,
        switched_on(v, now).pin == v.pin,
        switched_on(v, now).time_switched_off == v.time_switched_off,
        !v.is_high ==> switched_on(v, now).time_switched_on == Some(now),
        v.is_high ==> switched_on(v, now) == v,
{
}

/// Switching off makes the output low and keeps its pin and its last switch
/// on; the time of the switch off is `now` where the output was high.
pub proof fn law_switch_off_records(v: DigitalOutputView, now: u64)
    ensures
        !switched_off(v, now).is_high,
        switched_off(v, now).pin == v.pin,
        switched_off(v, now).time_switched_on == v.time_switched_on,
        v.is_high ==> switched_off(v, now).time_switched_off == Some(now),
        !v.is_high ==> switched_off(v, now) == v,
{
}

/// Turning over changes the level every time.
pub proof fn law_toggle_changes_level(v: DigitalOutputView, now: u64)
    ensures
        toggled(v, now).is_high == !v.is_high,
        toggled(v, now).pin == v.pin,
{
}

} // verus!
