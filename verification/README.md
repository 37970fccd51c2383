# plant_tower_rs

Firmware logic of a plant tower: an ESP32 drives a pump and shows it to Home
Assistant as a switch, announced through MQTT discovery.

- `src/` is the verified library (Verus).
  - `mqtt/topic.rs`: Home Assistant topics and how a topic splits into levels.
  - `mqtt/device.rs`: the MQTT identity of an entity, the `Component` trait,
    and the `Device` that registers components, builds the discovery payload
    and routes incoming messages.
  - `mqtt/switch.rs`: the switch entity and its state machine; a change of
    state is carried out in two steps, the message to publish and the
    completion once the publish went out or failed.
  - `mqtt/setup.rs`, `wifi.rs`: the decisions of the connection setup.
  - `hardware/`: the record of a digital output pin and the pump.
  - `schedule.rs`: when the main loop turns the pump switch over.
  - `json_doc.rs`: the calls into the `json` crate and what their text is.
- `app/` is the program around it: WiFi, MQTT client, GPIO and the main loop.
