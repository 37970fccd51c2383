//! What the firmware hands to the MQTT client to publish, and how a publish
//! can fail.
use vstd::prelude::*;

verus! {

/// The delivery guarantee of an MQTT message.
#[derive(Clone, Copy, Debug, PartialEq, Eq, Structural)]
pub enum QoS {
    AtMostOnce,
    AtLeastOnce,
    ExactlyOnce,
}

/// A message that is to be published.
#[derive(Debug)]
pub struct PublishRequest {
    pub topic: String,
    pub qos: QoS,
    pub retain: bool,
    pub payload: String,
}

/// A publish that the MQTT client refused, with the client's error code.
#[derive(Clone, Copy, Debug, PartialEq, Eq, Structural)]
pub struct PublishError {
    pub code: i32,
}

} // verus!
