//! The settings that the firmware is built with.
use vstd::prelude::*;

verus! {

/// Where the firmware connects: the MQTT broker and the WiFi network.
pub struct Config {
    pub mqtt_host: String,
    pub mqtt_user: String,
    pub mqtt_password: String,
    pub wifi_ssid: String,
    pub wifi_password: String,
}

} // verus!
