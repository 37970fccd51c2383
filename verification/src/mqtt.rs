//! The device, its components and what they exchange over MQTT.
pub mod device;
pub mod message;
pub mod setup;
pub mod switch;
pub mod topic;

pub use device::{Component, Device, MqttConfig};
pub use setup::broker_url;
pub use switch::Switch;
