use vstd::prelude::*;
use crate::clock::{utc_now, Timestamp};

verus! {

/// The address that an interface had before it was first changed.
#[derive(Debug)]
pub struct MacConfig {
    pub original_mac: String,
    pub interface: String,
    pub vendor: Option<String>,
    pub last_modified: Timestamp,
}

/// The name of the file that keeps the original address of an interface.
pub open spec fn config_file_of(interface: Seq<char>) -> Seq<char> {
    interface + ".json"@
}

/// The name of the file that keeps the original address of an interface.
pub fn config_file_name(interface: &str) -> (name: String)
    ensures
        name@ == config_file_of(interface@),
{
    let mut name = interface.to_string();
    name.append(".json");
    name
}

impl MacConfig {
    /// The record of an interface's original address, as of a point in
    /// time. No vendor is recorded.
    pub fn baseline(interface: &str, mac: &str, now: Timestamp) -> (config: MacConfig)
        ensures
            config.original_mac@ == mac@,
            config.interface@ == interface@,
            config.vendor is None,
            config.last_modified == now,
    {
        MacConfig {
            original_mac: mac.to_string(),
            interface: interface.to_string(),
            vendor: None,
            last_modified: now,
        }
    }
}

/// The record to save for an interface's original address, as of now.
pub fn save_original_mac(interface: &str, mac: &str) -> (config: MacConfig)
    ensures
        config.original_mac@ == mac@,
        config.interface@ == interface@,
        config.vendor is None,
{
    MacConfig::baseline(interface, mac, utc_now())
}

/// The original address of an interface, out of the record that was
/// saved for it, if one was.
pub fn get_original_mac(saved: Option<MacConfig>) -> (original: Option<String>)
    ensures
        match saved {
            Some(config) => original matches Some(mac) && mac@ == config.original_mac@,
            None => original is None,
        },
{
    match saved {
        Some(config) => Some(config.original_mac),
        None => None,
    }
}

} // verus!
