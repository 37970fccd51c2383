//! The decisions of the MQTT setup: the broker's address, and which received
//! messages go on to the firmware's main loop.
use vstd::prelude::*;
use vstd::string::*;
use vstd::utf8::{decode_utf8, valid_utf8};

verus! {

/// `mqtt://<user>:<password>@<host>`.
pub open spec fn broker_url_of(user: Seq<char>, password: Seq<char>, host: Seq<char>) -> Seq<char> {
    "mqtt://"@ + user + ":"@ + password + "@"@ + host
}

/// The address of the broker, with the credentials in it.
pub fn broker_url(mqtt_user: &str, mqtt_password: &str, mqtt_host: &str) -> (url: String)
    ensures
        url@ == broker_url_of(mqtt_user@, mqtt_password@, mqtt_host@),
{
    let url = String::from_str("mqtt://");
    let url = url.concat(mqtt_user);
    let url = url.concat(":");
    let url = url.concat(mqtt_password);
    let url = url.concat("@");
    url.concat(mqtt_host)
}

/// Why a received message is dropped.
#[derive(Clone, Copy, Debug, PartialEq, Eq, Structural)]
pub enum ReceiveError {
    /// The message came without a topic.
    MissingTopic,
    /// The payload is not UTF-8.
    InvalidPayload,
}

/// `std::str::from_utf8`: the text that the bytes encode, where they are
/// valid UTF-8.
#[verifier::external_body]
fn utf8_text(bytes: &[u8]) -> (r: Option<&str>)
    ensures
        r is Some <==> valid_utf8(bytes@),
        r matches Some(s) ==> s@ == decode_utf8(bytes@),
{
    std::str::from_utf8(bytes).ok()
}

/// The topic and text of a complete received message, which go on to the
/// main loop; a message without a topic, or whose payload is not UTF-8, is
/// dropped.
pub fn received_message(topic: Option<&str>, payload: &[u8]) -> (r: Result<
    (String, String),
    ReceiveError,
>)
    ensures
        match topic {
            None => r == Err::<(String, String), ReceiveError>(ReceiveError::MissingTopic),
            Some(t) => if valid_utf8(payload@) {
                r matches Ok(m) && m.0@ == t@ && m.1@ == decode_utf8(payload@)
            } else {
                r == Err::<(String, String), ReceiveError>(ReceiveError::InvalidPayload)
            },
        },
{
    let topic = match topic {
        Some(t) => t,
        None => return Err(ReceiveError::MissingTopic),
    };
    let text = match utf8_text(payload) {
        Some(s) => s,
        None => return Err(ReceiveError::InvalidPayload),
    };
    Ok((String::from_str(topic), String::from_str(text)))
}

/// The broker's address holds, in this order and each one whole, the
/// scheme `mqtt://`, the user, a colon, the password, an at sign and the host.
pub proof fn law_broker_url_parts(user: Seq<char>, password: Seq<char>, host: Seq<char>)
    ensures
        ({
            let url = broker_url_of(user, password, host);
            let u = user.len() as int;
            let p = password.len() as int;
            &&& url.len() == 9 + u + p + host.len()
            &&& url.subrange(0, 7) == seq!['m', 'q', 't', 't', ':', '/', '/']
            &&& url.subrange(7, 7 + u) == user
            &&& url[7 + u] == ':'
            &&& url.subrange(8 + u, 8 + u + p) == password
            &&& url[8 + u + p] == '@'
            &&& url.subrange(9 + u + p, url.len() as int) == host
        }),
{
    reveal_strlit("mqtt://");
    reveal_strlit(":");
    reveal_strlit("@");
    let url = broker_url_of(user, password, host);
    let u = user.len() as int;
    let p = password.len() as int;
    assert(url =~= seq!['m', 'q', 't', 't', ':', '/', '/'] + user + seq![':'] + password + seq!['@']
        + host);
    assert(url.subrange(0, 7) =~= seq!['m', 'q', 't', 't', ':', '/', '/']);
    assert(url.subrange(7, 7 + u) =~= user);
    assert(url.subrange(8 + u, 8 + u + p) =~= password);
    assert(url.subrange(9 + u + p, url.len() as int) =~= host);
}

} // verus!
