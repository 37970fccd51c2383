use plant_tower_rs::mqtt::message::{PublishError, QoS};
use plant_tower_rs::mqtt::switch::{ListenerCommand, SwitchCommand, SwitchState};
use plant_tower_rs::mqtt::{Component, MqttConfig, Switch};

fn pump_switch() -> Switch {
    Switch::new(
        String::from("plant_tower_rs_pump_switch"),
        String::from("Pump"),
        vec![(String::from("icon"), String::from("mdi:pump"))],
    )
}

#[test]
fn mqtt_config_builds_state_topic() {
    let config = MqttConfig::new(String::from("tower"), String::from("Tower"), String::from("device"));
    assert_eq!(config.unique_id(), "tower");
    assert_eq!(config.name(), "Tower");
    assert_eq!(config.platform(), "device");
    assert_eq!(config.state_topic(), "homeassistant/device/tower/state");
}

#[test]
fn new_switch_is_off_with_its_topics() {
    let switch = pump_switch();
    assert!(!switch.is_on());
    assert_eq!(switch.unique_id(), "plant_tower_rs_pump_switch");
    assert_eq!(switch.state_topic(), "homeassistant/switch/plant_tower_rs_pump_switch/state");
    assert_eq!(
        switch.command_topic().map(|t| t.as_str()),
        Some("homeassistant/switch/plant_tower_rs_pump_switch/set")
    );
}

#[test]
fn state_payloads_are_on_and_off() {
    assert_eq!(SwitchState::On.payload(), "ON");
    assert_eq!(SwitchState::Off.payload(), "OFF");
}

#[test]
fn send_state_is_retained_at_least_once_on_state_topic() {
    let switch = pump_switch();
    let msg = switch.send_state(SwitchState::On);
    assert_eq!(msg.topic, "homeassistant/switch/plant_tower_rs_pump_switch/state");
    assert_eq!(msg.qos, QoS::AtLeastOnce);
    assert!(msg.retain);
    assert_eq!(msg.payload, "ON");
    assert_eq!(switch.send_state(SwitchState::Off).payload, "OFF");
}

#[test]
fn listeners_follow_in_registration_order() {
    let mut switch = pump_switch();
    assert!(switch.update_listeners().is_empty());
    switch.register(3);
    switch.register(7);
    assert_eq!(
        switch.update_listeners(),
        vec![
            ListenerCommand { listener: 3, state: SwitchState::Off },
            ListenerCommand { listener: 7, state: SwitchState::Off },
        ]
    );
    let cmds = switch.switch_on(Ok(())).unwrap();
    assert_eq!(
        cmds,
        vec![
            ListenerCommand { listener: 3, state: SwitchState::On },
            ListenerCommand { listener: 7, state: SwitchState::On },
        ]
    );
}

#[test]
fn switch_on_and_off_after_publish() {
    let mut switch = pump_switch();
    assert_eq!(switch.switch_on(Ok(())), Ok(vec![]));
    assert!(switch.is_on());
    assert_eq!(switch.switch_on(Ok(())), Ok(vec![]));
    assert!(switch.is_on());
    assert_eq!(switch.switch_off(Ok(())), Ok(vec![]));
    assert!(!switch.is_on());
}

#[test]
fn failed_publish_leaves_the_switch() {
    let mut switch = pump_switch();
    switch.register(1);
    let err = PublishError { code: 258 };
    assert_eq!(switch.switch_on(Err(err)), Err(err));
    assert!(!switch.is_on());
    switch.switch_on(Ok(())).unwrap();
    assert_eq!(switch.switch_off(Err(err)), Err(err));
    assert!(switch.is_on());
    assert_eq!(switch.toggle(Err(err)), Err(err));
    assert!(switch.is_on());
}

#[test]
fn toggle_twice_restores_the_state() {
    let mut switch = pump_switch();
    switch.register(0);
    assert_eq!(switch.toggled_state(), SwitchState::On);
    assert_eq!(
        switch.toggle(Ok(())),
        Ok(vec![ListenerCommand { listener: 0, state: SwitchState::On }])
    );
    assert!(switch.is_on());
    assert_eq!(switch.toggled_state(), SwitchState::Off);
    assert_eq!(
        switch.toggle(Ok(())),
        Ok(vec![ListenerCommand { listener: 0, state: SwitchState::Off }])
    );
    assert!(!switch.is_on());
}

#[test]
fn process_message_reads_on_and_off() {
    let switch = pump_switch();
    assert_eq!(switch.process_message("ON"), Some(SwitchCommand::On));
    assert_eq!(switch.process_message("OFF"), Some(SwitchCommand::Off));
    assert_eq!(switch.process_message("on"), None);
    assert_eq!(switch.process_message("ON "), None);
    assert_eq!(switch.process_message(""), None);
}

#[test]
fn state_payload_comes_back_as_its_command() {
    let switch = pump_switch();
    for state in [SwitchState::On, SwitchState::Off] {
        let msg = switch.send_state(state);
        let cmd = switch.process_message(&msg.payload);
        assert_eq!(
            cmd,
            Some(match state {
                SwitchState::On => SwitchCommand::On,
                SwitchState::Off => SwitchCommand::Off,
            })
        );
    }
}

#[test]
fn request_message_announces_the_target_state() {
    let mut switch = pump_switch();
    assert_eq!(switch.request_message(&SwitchCommand::Toggle).payload, "ON");
    assert_eq!(switch.request_message(&SwitchCommand::Off).payload, "OFF");
    assert_eq!(switch.request_message(&SwitchCommand::On).payload, "ON");
    let msg = switch.request_message(&SwitchCommand::Toggle);
    switch.complete_request(SwitchCommand::Toggle, Ok(())).unwrap();
    assert_eq!(msg.payload, SwitchState::On.payload());
    assert!(switch.is_on());
    assert_eq!(switch.request_message(&SwitchCommand::Toggle).payload, "OFF");
}

#[test]
fn complete_request_carries_out_commands() {
    let mut switch = pump_switch();
    switch.register(5);
    assert_eq!(
        switch.complete_request(SwitchCommand::On, Ok(())),
        Ok(vec![ListenerCommand { listener: 5, state: SwitchState::On }])
    );
    assert!(switch.is_on());
    let err = PublishError { code: -1 };
    assert_eq!(switch.complete_request(SwitchCommand::Off, Err(err)), Err(err));
    assert!(switch.is_on());
    switch.complete_request(SwitchCommand::Off, Ok(())).unwrap();
    assert!(!switch.is_on());
}

#[test]
fn switch_discovery_payload_text() {
    let switch = pump_switch();
    let text = json::stringify(switch.to_discovery_payload());
    assert_eq!(
        text,
        "{\"platform\":\"switch\",\"name\":\"Pump\",\"unique_id\":\"plant_tower_rs_pump_switch\",\
\"state_topic\":\"homeassistant/switch/plant_tower_rs_pump_switch/state\",\
\"command_topic\":\"homeassistant/switch/plant_tower_rs_pump_switch/set\",\"icon\":\"mdi:pump\"}"
    );
}

#[test]
fn extra_settings_override_in_place_and_are_escaped() {
    let switch = Switch::new(
        String::from("s1"),
        String::from("S"),
        vec![
            (String::from("name"), String::from("Big \"Pump\"")),
            (String::from("note"), String::from("a\\b\n\u{1}")),
        ],
    );
    let text = json::stringify(switch.to_discovery_payload());
    assert_eq!(
        text,
        "{\"platform\":\"switch\",\"name\":\"Big \\\"Pump\\\"\",\"unique_id\":\"s1\",\
\"state_topic\":\"homeassistant/switch/s1/state\",\"command_topic\":\"homeassistant/switch/s1/set\",\
\"note\":\"a\\\\b\\n\\u0001\"}"
    );
}

#[test]
fn identity_and_payload_survive_changes() {
    let mut switch = pump_switch();
    let payload_before = json::stringify(switch.to_discovery_payload());
    switch.register(2);
    switch.toggle(Ok(())).unwrap();
    switch.switch_off(Err(PublishError { code: 1 })).unwrap_err();
    switch.complete_request(SwitchCommand::Off, Ok(())).unwrap();
    switch.register(9);
    assert_eq!(json::stringify(switch.to_discovery_payload()), payload_before);
    assert_eq!(switch.unique_id(), "plant_tower_rs_pump_switch");
    assert_eq!(switch.state_topic(), "homeassistant/switch/plant_tower_rs_pump_switch/state");
    assert_eq!(
        switch.command_topic().map(|t| t.as_str()),
        Some("homeassistant/switch/plant_tower_rs_pump_switch/set")
    );
    assert_ne!(Some(switch.state_topic()), switch.command_topic());
}

#[test]
fn is_on_is_what_the_last_published_change_set() {
    let mut switch = pump_switch();
    let err = PublishError { code: 3 };
    switch.switch_on(Ok(())).unwrap();
    switch.switch_off(Err(err)).unwrap_err();
    switch.register(1);
    assert!(switch.is_on());
    switch.toggle(Ok(())).unwrap();
    assert!(!switch.is_on());
    switch.toggle(Err(err)).unwrap_err();
    assert!(!switch.is_on());
    let cmd = switch.process_message("ON").unwrap();
    switch.complete_request(cmd, Ok(())).unwrap();
    assert!(switch.is_on());
}
