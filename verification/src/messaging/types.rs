//! Message type definitions for edge agent and device communication.
//!
//! Readings and set-points are IEEE-754 double values on the wire; here they
//! are carried as their 64-bit patterns (`f64::to_bits`), which the logic
//! stores and forwards but never computes with.

use vstd::prelude::*;
use vstd::string::*;

verus! {

/// Device type classification.
#[derive(Debug, Clone, Copy, PartialEq, Eq, Structural)]
pub enum DeviceType {
    Temperature,
    Humidity,
    Valve,
    Propulsion,
}

/// Device operational mode.
#[derive(Debug, Clone, Copy, PartialEq, Eq, Structural)]
pub enum DeviceMode {
    Sensor,
    Actuator,
    Hybrid,
}

/// Telemetry message published by devices.
///
/// Used for both MQTT RPC responses and NATS backend forwarding.
#[derive(Debug, Clone)]
pub struct TelemetryMessage {
    pub device_id: String,
    pub device_type: DeviceType,
    pub timestamp: u64,
    /// Bit pattern of the reading (`f64::to_bits`).
    pub value_bits: u64,
}

/// Command request sent to actuator devices.
#[derive(Debug, Clone)]
pub struct CommandRequest {
    /// Bit pattern of the requested set-point (`f64::to_bits`).
    pub target_value_bits: u64,
}

/// Command response from actuator devices.
#[derive(Debug, Clone)]
pub struct CommandResponse {
    pub status: String,
    pub message: Option<String>,
}

/// Device registration request sent during device startup.
///
/// Devices call the agent's `register-device` RPC method to announce
/// their presence and capabilities.
#[derive(Debug, Clone)]
pub struct RegisterRequest {
    pub device_id: String,
    pub device_type: DeviceType,
    pub mode: DeviceMode,
}

/// Device registration response from agent.
#[derive(Debug, Clone)]
pub struct RegisterResponse {
    pub accepted: bool,
    pub message: Option<String>,
}

/// Actuator state query response.
///
/// Returned by the `read-state` RPC method on actuator devices.
#[derive(Debug, Clone)]
pub struct ActuatorState {
    /// Bit pattern of the actuator's current value (`f64::to_bits`).
    pub current_value_bits: u64,
    pub timestamp: u64,
}

/// A device in this mode produces telemetry (answers `read-telemetry`).
pub open spec fn spec_produces_telemetry(mode: DeviceMode) -> bool {
    mode == DeviceMode::Sensor || mode == DeviceMode::Hybrid
}

/// A device in this mode executes commands (answers `execute-command` and `read-state`).
pub open spec fn spec_executes_commands(mode: DeviceMode) -> bool {
    mode == DeviceMode::Actuator || mode == DeviceMode::Hybrid
}

impl DeviceMode {
    /// Sensors and hybrids produce telemetry; actuators do not.
    pub fn produces_telemetry(&self) -> (b: bool)
        ensures
            b == spec_produces_telemetry(*self),
    {
        match self {
            DeviceMode::Sensor => true,
            DeviceMode::Actuator => false,
            DeviceMode::Hybrid => true,
        }
    }

    /// Actuators and hybrids execute commands; sensors do not.
    pub fn executes_commands(&self) -> (b: bool)
        ensures
            b == spec_executes_commands(*self),
    {
        match self {
            DeviceMode::Sensor => false,
            DeviceMode::Actuator => true,
            DeviceMode::Hybrid => true,
        }
    }

    /// The prefix of the RPC service name of a device in this mode.
    pub open spec fn spec_service_prefix(self) -> Seq<char> {
        match self {
            DeviceMode::Sensor => "sensor-"@,
            DeviceMode::Actuator => "actuator-"@,
            DeviceMode::Hybrid => "hybrid-"@,
        }
    }
}

/// The RPC service name under which a device answers: `<mode>-<id>`.
pub open spec fn spec_service_name(mode: DeviceMode, device_id: Seq<char>) -> Seq<char> {
    mode.spec_service_prefix() + device_id
}

/// Distinct devices answer under distinct service names: the name gives back
/// both the mode and the id.
pub proof fn lemma_service_name_injective(
    m1: DeviceMode,
    id1: Seq<char>,
    m2: DeviceMode,
    id2: Seq<char>,
)
    requires
        spec_service_name(m1, id1) == spec_service_name(m2, id2),
    ensures
        m1 == m2,
        id1 == id2,
{
    reveal_strlit("sensor-");
    reveal_strlit("actuator-");
    reveal_strlit("hybrid-");
    let p1 = m1.spec_service_prefix();
    let p2 = m2.spec_service_prefix();
    let n = spec_service_name(m1, id1);
    assert(n[0] == p1[0]);
    assert(n[0] == p2[0]);
    if m1 == m2 {
        assert(n.subrange(p1.len() as int, n.len() as int) =~= id1);
        assert(spec_service_name(m2, id2).subrange(p2.len() as int, n.len() as int) =~= id2);
    }
}

/// The RPC service name under which a device answers:
/// `sensor-<id>`, `actuator-<id>` or `hybrid-<id>`.
pub fn service_name(mode: DeviceMode, device_id: &str) -> (name: String)
    ensures
        name@ == spec_service_name(mode, device_id@),
        mode == DeviceMode::Sensor ==> name@ == "sensor-"@ + device_id@,
        mode == DeviceMode::Actuator ==> name@ == "actuator-"@ + device_id@,
        mode == DeviceMode::Hybrid ==> name@ == "hybrid-"@ + device_id@,
{
    let prefix = match mode {
        DeviceMode::Sensor => "sensor-",
        DeviceMode::Actuator => "actuator-",
        DeviceMode::Hybrid => "hybrid-",
    };
    String::from_str(prefix).concat(device_id)
}

} // verus!
