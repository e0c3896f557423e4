use rust_edge_agent::messaging::backend_command;
use rust_edge_agent::{
    command_device_id, command_reply, strip_prefix, CommandResponse, CommandRoute, DeviceMode,
    DeviceTable, DeviceType, RegisterRequest,
};

fn request(id: &str, device_type: DeviceType, mode: DeviceMode) -> RegisterRequest {
    RegisterRequest { device_id: id.to_string(), device_type, mode }
}

#[test]
fn registration_is_accepted_and_named() {
    let mut table = DeviceTable::new();
    let response = table.register_device(request("device-001", DeviceType::Valve, DeviceMode::Actuator));
    assert!(response.accepted);
    assert_eq!(response.message.as_deref(), Some("Registration successful"));
    assert_eq!(table.len(), 1);
    let device = table.get("device-001").unwrap();
    assert_eq!(device.service_name, "actuator-device-001");
    assert_eq!(device.mode, DeviceMode::Actuator);
    assert_eq!(device.device_type, DeviceType::Valve);
}

#[test]
fn reregistration_replaces_the_record() {
    let mut table = DeviceTable::new();
    table.register_device(request("7", DeviceType::Valve, DeviceMode::Actuator));
    table.register_device(request("7", DeviceType::Temperature, DeviceMode::Sensor));
    assert_eq!(table.len(), 1);
    let device = table.get("7").unwrap();
    assert_eq!(device.service_name, "sensor-7");
    assert_eq!(device.device_type, DeviceType::Temperature);
}

#[test]
fn strips_command_prefix() {
    assert_eq!(command_device_id("backend.command.device-002"), Some("device-002".to_string()));
    assert_eq!(command_device_id("backend.command."), Some(String::new()));
    assert_eq!(command_device_id("backend.telemetry"), None);
    assert_eq!(command_device_id("backend.command"), None);
    assert_eq!(command_device_id(""), None);
    assert_eq!(strip_prefix("abc", ""), Some("abc".to_string()));
    assert_eq!(strip_prefix("héllo wörld", "héllo "), Some("wörld".to_string()));
    assert_eq!(strip_prefix("ab", "abc"), None);
}

#[test]
fn command_subject_round_trip() {
    for id in ["1", "device-002", "a.b.c", ""] {
        assert_eq!(command_device_id(&backend_command(id)), Some(id.to_string()));
    }
}

#[test]
fn command_to_registered_device_is_delivered() {
    let mut table = DeviceTable::new();
    table.register_device(request("device-002", DeviceType::Propulsion, DeviceMode::Hybrid));
    match table.route_command("backend.command.device-002") {
        CommandRoute::Deliver { device_id, service_name } => {
            assert_eq!(device_id, "device-002");
            assert_eq!(service_name, "hybrid-device-002");
        }
        other => panic!("unexpected route: {other:?}"),
    }
}

#[test]
fn command_to_sensor_is_refused() {
    let mut table = DeviceTable::new();
    table.register_device(request("device-003", DeviceType::Temperature, DeviceMode::Sensor));
    match table.route_command("backend.command.device-003") {
        CommandRoute::NotCommandable { device_id, reply } => {
            assert_eq!(device_id, "device-003");
            assert_eq!(reply.status, "error");
            assert_eq!(
                reply.message.as_deref(),
                Some("Device does not accept commands: device-003")
            );
        }
        other => panic!("unexpected route: {other:?}"),
    }
}

#[test]
fn command_to_actuator_is_delivered() {
    let mut table = DeviceTable::new();
    table.register_device(request("device-001", DeviceType::Valve, DeviceMode::Actuator));
    match table.route_command("backend.command.device-001") {
        CommandRoute::Deliver { device_id, service_name } => {
            assert_eq!(device_id, "device-001");
            assert_eq!(service_name, "actuator-device-001");
        }
        other => panic!("unexpected route: {other:?}"),
    }
}

#[test]
fn last_registration_decides_routing_and_polling() {
    let mut table = DeviceTable::new();
    table.register_device(request("5", DeviceType::Valve, DeviceMode::Actuator));
    assert!(table.poll_targets().is_empty());
    table.register_device(request("5", DeviceType::Temperature, DeviceMode::Sensor));
    let targets = table.poll_targets();
    assert_eq!(targets.len(), 1);
    assert_eq!(targets[0].device_id, "5");
    assert_eq!(targets[0].service_name, "sensor-5");
    assert!(matches!(
        table.route_command("backend.command.5"),
        CommandRoute::NotCommandable { .. }
    ));
}

#[test]
fn command_to_unknown_device_is_answered_with_error() {
    let table = DeviceTable::new();
    match table.route_command("backend.command.device-009") {
        CommandRoute::NotRegistered { device_id, reply } => {
            assert_eq!(device_id, "device-009");
            assert_eq!(reply.status, "error");
            assert_eq!(reply.message.as_deref(), Some("Device not registered: device-009"));
        }
        other => panic!("unexpected route: {other:?}"),
    }
}

#[test]
fn command_on_other_subject_is_refused() {
    let table = DeviceTable::new();
    match table.route_command("devices.1.command") {
        CommandRoute::InvalidSubject { error } => {
            assert_eq!(error, "agent::command: Invalid command subject: devices.1.command");
        }
        other => panic!("unexpected route: {other:?}"),
    }
}

#[test]
fn command_replies() {
    let ok = CommandResponse { status: "ok".to_string(), message: Some("Set to 75.50".to_string()) };
    let reply = command_reply(Ok(ok));
    assert_eq!(reply.status, "ok");
    assert_eq!(reply.message.as_deref(), Some("Set to 75.50"));
    let reply = command_reply(Err("request timed out".to_string()));
    assert_eq!(reply.status, "error");
    assert_eq!(reply.message.as_deref(), Some("Device unreachable: request timed out"));
}

#[test]
fn only_sensors_and_hybrids_are_polled() {
    let mut table = DeviceTable::new();
    table.register_device(request("device-001", DeviceType::Valve, DeviceMode::Actuator));
    table.register_device(request("device-002", DeviceType::Propulsion, DeviceMode::Hybrid));
    table.register_device(request("device-003", DeviceType::Temperature, DeviceMode::Sensor));
    let mut targets: Vec<(String, String)> = table
        .poll_targets()
        .into_iter()
        .map(|t| (t.device_id, t.service_name))
        .collect();
    targets.sort();
    assert_eq!(
        targets,
        vec![
            ("device-002".to_string(), "hybrid-device-002".to_string()),
            ("device-003".to_string(), "sensor-device-003".to_string()),
        ]
    );
}

#[test]
fn empty_table_polls_nothing() {
    let table = DeviceTable::new();
    assert!(table.poll_targets().is_empty());
    assert_eq!(table.len(), 0);
}
