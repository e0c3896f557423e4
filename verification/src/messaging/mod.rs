//! Messaging boundary: subject names, shared message types and reconnection
//! schedules.

pub mod retry;
pub mod subjects;
pub mod types;

pub use subjects::{
    all_backend_commands, all_device_telemetry, backend_command, backend_telemetry,
    device_command, device_status, device_telemetry,
};

pub use types::{
    service_name, ActuatorState, CommandRequest, CommandResponse, DeviceMode, DeviceType,
    RegisterRequest, RegisterResponse, TelemetryMessage,
};

pub use retry::{
    nats_connect_step, nats_retry_delay_secs, next_transport_backoff_ms, transport_connect_step,
    ConnectStep, NATS_MAX_DELAY_SECS, TRANSPORT_INITIAL_BACKOFF_MS, TRANSPORT_MAX_BACKOFF_MS,
};
