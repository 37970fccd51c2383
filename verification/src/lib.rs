//! Firmware logic of a plant tower: a pump behind a switch that announces
//! itself to Home Assistant over MQTT discovery.
pub mod config;
pub mod hardware;
pub mod interface;
pub mod json_doc;
pub mod mqtt;
pub mod schedule;
pub mod wifi;
