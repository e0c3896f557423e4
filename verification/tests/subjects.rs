use rust_edge_agent::messaging::{
    all_backend_commands, all_device_telemetry, backend_command, backend_telemetry,
    device_command, device_status, device_telemetry, service_name,
};
use rust_edge_agent::DeviceMode;

#[test]
fn device_subjects_embed_the_id() {
    assert_eq!(device_telemetry("device-001"), "devices.device-001.telemetry");
    assert_eq!(device_status("device-001"), "devices.device-001.status");
    assert_eq!(device_command("device-001"), "devices.device-001.command");
}

#[test]
fn backend_command_subject() {
    assert_eq!(backend_command("device-002"), "backend.command.device-002");
    assert_eq!(backend_command(""), "backend.command.");
}

#[test]
fn fixed_subjects() {
    assert_eq!(backend_telemetry(), "backend.telemetry");
    assert_eq!(all_device_telemetry(), "devices.*.telemetry");
    assert_eq!(all_backend_commands(), "backend.command.*");
}

#[test]
fn service_names_follow_mode() {
    assert_eq!(service_name(DeviceMode::Sensor, "1"), "sensor-1");
    assert_eq!(service_name(DeviceMode::Actuator, "2"), "actuator-2");
    assert_eq!(service_name(DeviceMode::Hybrid, "3"), "hybrid-3");
}

#[test]
fn mode_roles() {
    assert!(DeviceMode::Sensor.produces_telemetry());
    assert!(!DeviceMode::Sensor.executes_commands());
    assert!(!DeviceMode::Actuator.produces_telemetry());
    assert!(DeviceMode::Actuator.executes_commands());
    assert!(DeviceMode::Hybrid.produces_telemetry());
    assert!(DeviceMode::Hybrid.executes_commands());
}

#[test]
fn service_names_of_distinct_devices_differ() {
    let modes = [DeviceMode::Sensor, DeviceMode::Actuator, DeviceMode::Hybrid];
    let ids = ["1", "2", "10", "sensor-1", ""];
    let mut names = Vec::new();
    for mode in modes {
        for id in ids {
            names.push(service_name(mode, id));
        }
    }
    let mut unique = names.clone();
    unique.sort();
    unique.dedup();
    assert_eq!(unique.len(), names.len());
}
