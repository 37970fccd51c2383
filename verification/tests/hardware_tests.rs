use plant_tower_rs::hardware::{DigitalOutput, Pump};
use plant_tower_rs::interface::Switchable;

#[test]
fn new_output_is_never_switched() {
    let out = DigitalOutput::new(4, false);
    assert_eq!(out.pin(), 4);
    assert!(!out.is_on());
    assert_eq!(out.time_switched_on(), None);
    assert_eq!(out.time_switched_off(), None);
}

#[test]
fn switch_on_records_the_first_time() {
    let mut out = DigitalOutput::new(4, false);
    out.switch_on(100);
    assert!(out.is_on());
    assert_eq!(out.time_switched_on(), Some(100));
    out.switch_on(200);
    assert_eq!(out.time_switched_on(), Some(100));
    assert_eq!(out.time_switched_off(), None);
}

#[test]
fn switch_off_records_the_first_time() {
    let mut out = DigitalOutput::new(4, true);
    out.switch_off(50);
    assert!(!out.is_on());
    assert_eq!(out.time_switched_off(), Some(50));
    out.switch_off(60);
    assert_eq!(out.time_switched_off(), Some(50));
    assert_eq!(out.time_switched_on(), None);
}

#[test]
fn toggle_twice_restores_the_level() {
    let mut out = DigitalOutput::new(2, false);
    out.toggle(10);
    assert!(out.is_on());
    out.toggle(20);
    assert!(!out.is_on());
    assert_eq!(out.time_switched_on(), Some(10));
    assert_eq!(out.time_switched_off(), Some(20));
}

#[test]
fn pump_follows_its_orders() {
    let mut pump = Pump::new(5, false);
    pump.switch_on(1000);
    assert!(pump.output().is_on());
    assert_eq!(pump.output().time_switched_on(), Some(1000));
    pump.switch_off(2000);
    assert!(!pump.output().is_on());
    assert_eq!(pump.output().time_switched_off(), Some(2000));
    assert_eq!(pump.output().pin(), 5);
}
