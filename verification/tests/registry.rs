use rust_edge_agent::{DeviceRegistry, DeviceType, TelemetryMessage};

const SEC: u128 = 1_000_000_000;

fn reading(id: &str, device_type: DeviceType, value: f64) -> TelemetryMessage {
    TelemetryMessage {
        device_id: id.to_string(),
        device_type,
        timestamp: 1_738_800_000,
        value_bits: value.to_bits(),
    }
}

#[test]
fn new_registry_is_empty() {
    let registry = DeviceRegistry::new(30 * SEC);
    assert_eq!(registry.device_count(), 0);
    assert!(!registry.is_online("device-001"));
    assert!(!registry.is_online_at("device-001", 0));
    assert!(registry.get("device-001").is_none());
}

#[test]
fn first_report_adds_device() {
    let mut registry = DeviceRegistry::new(30 * SEC);
    registry.update_at(&reading("device-003", DeviceType::Temperature, 23.5), 5 * SEC);
    assert_eq!(registry.device_count(), 1);
    let state = registry.get("device-003").unwrap();
    assert_eq!(state.device_id, "device-003");
    assert_eq!(state.device_type, DeviceType::Temperature);
    assert_eq!(state.last_seen, 5 * SEC);
    assert_eq!(state.last_value_bits.map(f64::from_bits), Some(23.5));
}

#[test]
fn later_reports_keep_type_and_count() {
    let mut registry = DeviceRegistry::new(30 * SEC);
    registry.update_at(&reading("device-002", DeviceType::Propulsion, 20.26), SEC);
    registry.update_at(&reading("device-002", DeviceType::Valve, 21.05), 6 * SEC);
    assert_eq!(registry.device_count(), 1);
    let state = registry.get("device-002").unwrap();
    assert_eq!(state.device_type, DeviceType::Propulsion);
    assert_eq!(state.last_seen, 6 * SEC);
    assert_eq!(state.last_value_bits.map(f64::from_bits), Some(21.05));
}

#[test]
fn distinct_devices_are_counted_once_each() {
    let mut registry = DeviceRegistry::new(30 * SEC);
    registry.update_at(&reading("a", DeviceType::Humidity, 1.0), 0);
    registry.update_at(&reading("b", DeviceType::Humidity, 2.0), 0);
    registry.update_at(&reading("a", DeviceType::Humidity, 3.0), 0);
    registry.update_at(&reading("c", DeviceType::Valve, 4.0), 0);
    assert_eq!(registry.device_count(), 3);
    assert_eq!(registry.get("b").unwrap().last_value_bits, Some(2.0f64.to_bits()));
    assert_eq!(registry.get("a").unwrap().last_value_bits, Some(3.0f64.to_bits()));
}

#[test]
fn device_goes_offline_after_timeout() {
    let mut registry = DeviceRegistry::new(30 * SEC);
    registry.update_at(&reading("device-001", DeviceType::Valve, 75.0), 10 * SEC);
    assert!(registry.is_online_at("device-001", 10 * SEC));
    assert!(registry.is_online_at("device-001", 40 * SEC - 1));
    assert!(!registry.is_online_at("device-001", 40 * SEC));
    assert!(!registry.is_online_at("device-001", 100 * SEC));
    // A time before the report counts as no time elapsed.
    assert!(registry.is_online_at("device-001", 0));
    assert!(!registry.is_online_at("device-002", 10 * SEC));
}

#[test]
fn zero_timeout_means_never_online() {
    let mut registry = DeviceRegistry::new(0);
    registry.update_at(&reading("x", DeviceType::Valve, 0.0), 7);
    assert!(!registry.is_online_at("x", 7));
}

#[test]
fn update_with_the_clock_marks_device_online() {
    let mut registry = DeviceRegistry::new(30 * SEC);
    registry.update(&reading("device-003", DeviceType::Temperature, 21.2));
    assert_eq!(registry.device_count(), 1);
    assert!(registry.is_online("device-003"));
    assert!(!registry.is_online("device-004"));
}

#[test]
fn sub_second_timeout() {
    let mut registry = DeviceRegistry::new(SEC / 2);
    registry.update_at(&reading("d", DeviceType::Humidity, 40.0), SEC);
    assert!(registry.is_online_at("d", SEC + SEC / 2 - 1));
    assert!(!registry.is_online_at("d", SEC + SEC / 2));
}

#[test]
fn failed_poll_marks_device_offline_until_next_report() {
    let mut registry = DeviceRegistry::new(30 * SEC);
    registry.update_at(&reading("device-003", DeviceType::Temperature, 21.0), SEC);
    registry.update_at(&reading("device-004", DeviceType::Temperature, 22.0), SEC);
    assert!(registry.is_online_at("device-003", 2 * SEC));
    registry.mark_offline("device-003");
    assert!(!registry.is_online_at("device-003", 2 * SEC));
    assert!(registry.get("device-003").unwrap().marked_offline);
    assert_eq!(registry.get("device-003").unwrap().last_seen, SEC);
    assert!(registry.is_online_at("device-004", 2 * SEC));
    assert_eq!(registry.device_count(), 2);
    registry.update_at(&reading("device-003", DeviceType::Temperature, 21.5), 3 * SEC);
    assert!(registry.is_online_at("device-003", 3 * SEC));
    assert!(!registry.get("device-003").unwrap().marked_offline);
}

#[test]
fn failed_poll_of_unknown_device_changes_nothing() {
    let mut registry = DeviceRegistry::new(30 * SEC);
    registry.mark_offline("device-009");
    assert_eq!(registry.device_count(), 0);
    assert!(registry.get("device-009").is_none());
}

#[test]
fn recorded_poll_updates_or_marks_offline() {
    let mut registry = DeviceRegistry::new(30 * SEC);
    let msg = reading("device-002", DeviceType::Propulsion, 20.26);
    let forward = registry.record_poll("device-002", Some(msg));
    let forward = forward.expect("a reading is handed back");
    assert_eq!(forward.device_id, "device-002");
    assert_eq!(forward.value_bits, 20.26f64.to_bits());
    assert_eq!(registry.device_count(), 1);
    assert!(registry.is_online("device-002"));
    assert!(registry.record_poll("device-002", None).is_none());
    assert!(!registry.is_online("device-002"));
    assert!(registry.get("device-002").unwrap().marked_offline);
}

#[test]
fn clock_stamps_never_go_backwards() {
    let mut registry = DeviceRegistry::new(30 * SEC);
    // A stamp given far in the future raises the registry's clock ...
    registry.update_at(&reading("a", DeviceType::Valve, 1.0), 1_000_000 * SEC);
    // ... so a later clock-stamped update is stamped no earlier.
    registry.update(&reading("b", DeviceType::Valve, 2.0));
    assert!(registry.get("b").unwrap().last_seen >= registry.get("a").unwrap().last_seen);
    assert!(registry.is_online("b"));
}
