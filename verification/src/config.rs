//! The immutable configuration snapshot, passed explicitly into every
//! pipeline run and never reloaded while the process lives.

use vstd::prelude::*;

use crate::policy::Weekday;

verus! {

/// Where the presence backend lives and how to authenticate against it. The
/// library carries these values; only the transport interprets them.
#[derive(Clone, Debug, PartialEq)]
pub struct HomeAssistant {
    pub url: String,
    pub token: String,
}

/// The per-device configuration.
#[derive(Clone, Debug, PartialEq)]
pub struct Device {
    /// The 16-byte AES key as a hex-token string.
    pub key: String,
    /// The display name mirrored to the presence backend.
    pub name: String,
    /// The expected 10-byte device identity as a hex-token string.
    pub device_id: String,
    /// Which manufacturer-data entry of an advertisement carries the token.
    pub manufacture: u16,
    /// The weekly schedule: weekday to ordered ranges, first match wins.
    pub allowed_times: Vec<(Weekday, Vec<String>)>,
}

/// The process-wide configuration snapshot.
#[derive(Clone, Debug, PartialEq)]
pub struct Config {
    /// Where the replay store is persisted; only the transport reads it.
    pub database_path: String,
    pub home_assistant: HomeAssistant,
    /// Tolerated divergence, in seconds, between locally observed and
    /// tag-reported elapsed time.
    pub allowed_skew: u32,
    /// Device configurations keyed by colon-hex address.
    pub devices: Vec<(String, Device)>,
}

} // verus!
