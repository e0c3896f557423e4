use rust_edge_agent::device_sim::{parse_device_mode, parse_device_type};
use rust_edge_agent::{DeviceMode, DeviceType};

#[test]
fn parses_every_device_type() {
    assert_eq!(parse_device_type("temp"), Ok(DeviceType::Temperature));
    assert_eq!(parse_device_type("humidity"), Ok(DeviceType::Humidity));
    assert_eq!(parse_device_type("valve"), Ok(DeviceType::Valve));
    assert_eq!(parse_device_type("propulsion"), Ok(DeviceType::Propulsion));
}

#[test]
fn refuses_unknown_device_type() {
    assert_eq!(
        parse_device_type("temperature"),
        Err("Invalid device type: temperature".to_string())
    );
    assert_eq!(parse_device_type(""), Err("Invalid device type: ".to_string()));
    assert_eq!(parse_device_type("Temp"), Err("Invalid device type: Temp".to_string()));
}

#[test]
fn parses_every_device_mode() {
    assert_eq!(parse_device_mode("sensor"), Ok(DeviceMode::Sensor));
    assert_eq!(parse_device_mode("actuator"), Ok(DeviceMode::Actuator));
    assert_eq!(parse_device_mode("hybrid"), Ok(DeviceMode::Hybrid));
}

#[test]
fn refuses_unknown_device_mode() {
    assert_eq!(parse_device_mode("gateway"), Err("Invalid device mode: gateway".to_string()));
    assert_eq!(parse_device_mode("sensors"), Err("Invalid device mode: sensors".to_string()));
}
