use plant_tower_rs::schedule::{toggle_due, TOGGLE_PERIOD_MS};

#[test]
fn toggle_is_due_after_ten_seconds() {
    assert_eq!(TOGGLE_PERIOD_MS, 10_000);
    assert!(!toggle_due(0, 0));
    assert!(!toggle_due(0, 9_999));
    assert!(toggle_due(0, 10_000));
    assert!(toggle_due(5_000, 20_000));
    assert!(!toggle_due(5_000, 14_999));
}

#[test]
fn clock_before_the_last_switch_is_not_due() {
    assert!(!toggle_due(20_000, 5_000));
}
