//! The decisions of the WiFi setup: which authentication to use and on which
//! channel the configured network was seen.
use vstd::prelude::*;
use vstd::string::*;

verus! {

/// How the firmware authenticates to the network.
#[derive(Clone, Copy, Debug, PartialEq, Eq, Structural)]
pub enum WifiAuth {
    /// WPA2 with a pre-shared key.
    Wpa2Personal,
    /// No authentication.
    Open,
}

/// Why the WiFi cannot be set up.
#[derive(Clone, Copy, Debug, PartialEq, Eq, Structural)]
pub enum WifiSetupError {
    /// The network name is empty.
    MissingSsid,
}

/// The authentication for the network `ssid` with `password`: none without a
/// name, WPA2 with a password, open without one.
pub fn auth_method(ssid: &str, password: &str) -> (r: Result<WifiAuth, WifiSetupError>)
    ensures
        ssid@.len() == 0 ==> r == Err::<WifiAuth, WifiSetupError>(WifiSetupError::MissingSsid),
        ssid@.len() != 0 && password@.len() == 0 ==> r == Ok::<WifiAuth, WifiSetupError>(WifiAuth::Open),
        ssid@.len() != 0 && password@.len() != 0 ==> r == Ok::<WifiAuth, WifiSetupError>(
            WifiAuth::Wpa2Personal,
        ),
{
    if ssid.is_empty() {
        return Err(WifiSetupError::MissingSsid);
    }
    if password.is_empty() {
        Ok(WifiAuth::Open)
    } else {
        Ok(WifiAuth::Wpa2Personal)
    }
}

/// A network seen in a scan.
#[derive(Debug)]
pub struct AccessPoint {
    pub ssid: String,
    pub channel: u8,
}

/// The channel of the first network in the scan that is named `ssid`, if any.
pub fn access_point_channel(access_points: &Vec<AccessPoint>, ssid: &str) -> (r: Option<u8>)
    ensures
        match r {
            Some(c) => exists|i: int|
                0 <= i < access_points@.len() && access_points@[i].ssid@ == ssid@ && access_points@[i].channel
                    == c && forall|j: int|
                    0 <= j < i ==> #[trigger] access_points@[j].ssid@ != ssid@,
            None => forall|i: int|
                0 <= i < access_points@.len() ==> #[trigger] access_points@[i].ssid@ != ssid@,
        },
{
    let name = String::from_str(ssid);
    let n = access_points.len();
    let mut i: usize = 0;
    while i < n
        invariant
            n == access_points@.len(),
            i <= n,
            name@ == ssid@,
            forall|j: int| 0 <= j < i ==> #[trigger] access_points@[j].ssid@ != ssid@,
        decreases n - i,
    {
        if access_points[i].ssid.eq(&name) {
            return Some(access_points[i].channel);
        }
        i = i + 1;
    }
    None
}

} // verus!
