//! Rust edge agent library.
//!
//! Components for an edge gateway that bridges backend services (via NATS)
//! with local devices (via MQTT RPC): subject routing, device registration
//! and lookup, command routing decisions, telemetry polling targets,
//! reconnection schedules and lifecycle state.

pub mod agent;
pub mod device_sim;
pub mod messaging;
pub mod runtime;

// Agent state and decisions
pub use agent::{
    command_device_id, command_reply, strip_prefix, CommandRoute, DeviceRegistry, DeviceState,
    DeviceTable, RegisteredDevice,
};

// Runtime lifecycle management
pub use runtime::{Lifecycle, LifecycleState};

// Re-export commonly used messaging types for convenience
pub use messaging::{
    ActuatorState, CommandRequest, CommandResponse, DeviceMode, DeviceType, RegisterRequest,
    RegisterResponse, TelemetryMessage,
};
