use plant_tower_rs::mqtt::device::DispatchError;
use plant_tower_rs::mqtt::message::{PublishError, QoS};
use plant_tower_rs::mqtt::switch::{ListenerCommand, SwitchCommand, SwitchState};
use plant_tower_rs::mqtt::{Component, Device, Switch};

fn tower() -> Device<Switch> {
    Device::new(
        String::from("plant_tower_rs"),
        String::from("Plant Tower Rust"),
        String::from("Myself"),
    )
}

fn switch(id: &str, name: &str) -> Switch {
    Switch::new(String::from(id), String::from(name), vec![])
}

#[test]
fn new_device_has_no_components() {
    let device = tower();
    assert_eq!(device.find_component("anything"), None);
    assert!(device.subscribe_command_topics().is_empty());
}

#[test]
fn discovery_message_of_an_empty_device() {
    let device = tower();
    let msg = device.send_discovery_message();
    assert_eq!(msg.topic, "homeassistant/device/plant_tower_rs/config");
    assert_eq!(msg.qos, QoS::ExactlyOnce);
    assert!(msg.retain);
    assert_eq!(
        msg.payload,
        "{\"state_topic\":\"homeassistant/device/plant_tower_rs/state\",\"qos\":2,\
\"dev\":{\"ids\":\"plant_tower_rs\",\"name\":\"Plant Tower Rust\",\"mf\":\"Myself\",\"mdl\":\"Plant Tower Rust\"},\
\"o\":{\"name\":\"Plant Tower Rust\"},\"cmps\":{}}"
    );
}

#[test]
fn discovery_message_lists_components() {
    let mut device = tower();
    device.register(Switch::new(
        String::from("plant_tower_rs_pump_switch"),
        String::from("Pump"),
        vec![(String::from("icon"), String::from("mdi:pump"))],
    ));
    device.register(switch("light", "Light"));
    let msg = device.send_discovery_message();
    assert_eq!(
        msg.payload,
        "{\"state_topic\":\"homeassistant/device/plant_tower_rs/state\",\"qos\":2,\
\"dev\":{\"ids\":\"plant_tower_rs\",\"name\":\"Plant Tower Rust\",\"mf\":\"Myself\",\"mdl\":\"Plant Tower Rust\"},\
\"o\":{\"name\":\"Plant Tower Rust\"},\"cmps\":{\
\"plant_tower_rs_pump_switch\":{\"platform\":\"switch\",\"name\":\"Pump\",\"unique_id\":\"plant_tower_rs_pump_switch\",\
\"state_topic\":\"homeassistant/switch/plant_tower_rs_pump_switch/state\",\
\"command_topic\":\"homeassistant/switch/plant_tower_rs_pump_switch/set\",\"icon\":\"mdi:pump\"},\
\"light\":{\"platform\":\"switch\",\"name\":\"Light\",\"unique_id\":\"light\",\
\"state_topic\":\"homeassistant/switch/light/state\",\"command_topic\":\"homeassistant/switch/light/set\"}}}"
    );
    let parsed = json::parse(&msg.payload).unwrap();
    assert_eq!(parsed["cmps"]["light"]["name"], "Light");
    assert_eq!(parsed["qos"], 2);
}

#[test]
fn register_replaces_a_component_with_the_same_id() {
    let mut device = tower();
    device.register(switch("a", "First"));
    device.register(switch("b", "Second"));
    device.register(switch("a", "Third"));
    assert_eq!(device.find_component("a"), Some(0));
    assert_eq!(device.find_component("b"), Some(1));
    assert_eq!(device.find_component("c"), None);
    let first = json::stringify(device.component(0).to_discovery_payload());
    assert!(first.contains("\"name\":\"Third\""));
}

#[test]
fn command_topics_in_registration_order() {
    let mut device = tower();
    device.register(switch("a", "A"));
    device.register(switch("b", "B"));
    assert_eq!(
        device.subscribe_command_topics(),
        vec![
            String::from("homeassistant/switch/a/set"),
            String::from("homeassistant/switch/b/set"),
        ]
    );
}

#[test]
fn dispatch_routes_by_third_level() {
    let mut device = tower();
    device.register(switch("a", "A"));
    device.register(switch("plant_tower_rs_pump_switch", "Pump"));
    let d = device
        .dispatch_event("homeassistant/switch/plant_tower_rs_pump_switch/set", "ON")
        .unwrap();
    assert_eq!(d.index, 1);
    assert_eq!(d.request, Some(SwitchCommand::On));
    let d = device.dispatch_event("homeassistant/switch/a/set", "bogus").unwrap();
    assert_eq!(d.index, 0);
    assert_eq!(d.request, None);
    let d = device.dispatch_event("x/y/a", "OFF").unwrap();
    assert_eq!(d.index, 0);
    assert_eq!(d.request, Some(SwitchCommand::Off));
}

#[test]
fn dispatch_rejects_short_topics() {
    let mut device = tower();
    device.register(switch("a", "A"));
    assert!(matches!(device.dispatch_event("homeassistant/switch", "ON"), Err(DispatchError::TopicMismatch)));
    assert!(matches!(device.dispatch_event("", "ON"), Err(DispatchError::TopicMismatch)));
    assert!(matches!(device.dispatch_event("a", "ON"), Err(DispatchError::TopicMismatch)));
}

#[test]
fn dispatch_rejects_unknown_ids() {
    let mut device = tower();
    device.register(switch("a", "A"));
    assert_eq!(
        device.dispatch_event("homeassistant/switch/b/set", "ON").err(),
        Some(DispatchError::UnknownComponent { unique_id: String::from("b") })
    );
    assert_eq!(
        device.dispatch_event("a/b//c", "ON").err(),
        Some(DispatchError::UnknownComponent { unique_id: String::new() })
    );
}

#[test]
fn requests_through_the_device() {
    let mut device = tower();
    device.register(switch("a", "A"));
    device.register(switch("b", "B"));
    let msg = device.request_message(1, &SwitchCommand::Toggle);
    assert_eq!(msg.topic, "homeassistant/switch/b/state");
    assert_eq!(msg.payload, "ON");
    assert_eq!(device.complete_request(1, SwitchCommand::Toggle, Ok(())), Ok(vec![]));
    assert!(device.component(1).is_on());
    assert!(!device.component(0).is_on());
    let err = PublishError { code: 7 };
    assert_eq!(device.complete_request(1, SwitchCommand::Off, Err(err)), Err(err));
    assert!(device.component(1).is_on());
}

#[test]
fn registered_listeners_follow_through_the_device() {
    let mut device = tower();
    let mut pump = switch("pump", "Pump");
    pump.register(4);
    device.register(pump);
    assert_eq!(
        device.complete_request(0, SwitchCommand::On, Ok(())),
        Ok(vec![ListenerCommand { listener: 4, state: SwitchState::On }])
    );
}
