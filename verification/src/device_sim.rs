//! Command-line parsing of the device simulator.

use crate::messaging::{DeviceMode, DeviceType};
use vstd::prelude::*;
use vstd::string::*;

verus! {

/// The device type named on the simulator's command line, if the name is one
/// of `temp`, `humidity`, `valve`, `propulsion`.
pub open spec fn spec_device_type_named(s: Seq<char>) -> Option<DeviceType> {
    if s == "temp"@ {
        Some(DeviceType::Temperature)
    } else if s == "humidity"@ {
        Some(DeviceType::Humidity)
    } else if s == "valve"@ {
        Some(DeviceType::Valve)
    } else if s == "propulsion"@ {
        Some(DeviceType::Propulsion)
    } else {
        None
    }
}

/// The device mode named on the simulator's command line, if the name is one
/// of `sensor`, `actuator`, `hybrid`.
pub open spec fn spec_device_mode_named(s: Seq<char>) -> Option<DeviceMode> {
    if s == "sensor"@ {
        Some(DeviceMode::Sensor)
    } else if s == "actuator"@ {
        Some(DeviceMode::Actuator)
    } else if s == "hybrid"@ {
        Some(DeviceMode::Hybrid)
    } else {
        None
    }
}

/// Whether `s` and `t` hold the same text.
fn same_text(s: &String, t: &str) -> (same: bool)
    ensures
        same == (s@ == t@),
{
    *s == String::from_str(t)
}

/// Parse a device type name; any other name is refused with
/// `Invalid device type: <name>`.
pub fn parse_device_type(s: &str) -> (parsed: Result<DeviceType, String>)
    ensures
        match spec_device_type_named(s@) {
            Some(t) => parsed == Ok::<DeviceType, String>(t),
            None => parsed is Err && parsed->Err_0@ == "Invalid device type: "@ + s@,
        },
{
    let name = String::from_str(s);
    if same_text(&name, "temp") {
        Ok(DeviceType::Temperature)
    } else if same_text(&name, "humidity") {
        Ok(DeviceType::Humidity)
    } else if same_text(&name, "valve") {
        Ok(DeviceType::Valve)
    } else if same_text(&name, "propulsion") {
        Ok(DeviceType::Propulsion)
    } else {
        Err(String::from_str("Invalid device type: ").concat(s))
    }
}

/// Parse a device mode name; any other name is refused with
/// `Invalid device mode: <name>`.
pub fn parse_device_mode(s: &str) -> (parsed: Result<DeviceMode, String>)
    ensures
        match spec_device_mode_named(s@) {
            Some(m) => parsed == Ok::<DeviceMode, String>(m),
            None => parsed is Err && parsed->Err_0@ == "Invalid device mode: "@ + s@,
        },
{
    let name = String::from_str(s);
    if same_text(&name, "sensor") {
        Ok(DeviceMode::Sensor)
    } else if same_text(&name, "actuator") {
        Ok(DeviceMode::Actuator)
    } else if same_text(&name, "hybrid") {
        Ok(DeviceMode::Hybrid)
    } else {
        Err(String::from_str("Invalid device mode: ").concat(s))
    }
}

} // verus!
