use smart_home::device::{Device, DeviceType};
use smart_home::net::device_update::{DeviceUpdateType, FieldMap, FieldValue, MQTTUpdate};
use smart_home::net::simmed::{apply_sim_command, reading_bounds, sim_reading, sim_root_status, sim_value_update};

fn s(x: &str) -> String {
    x.to_string()
}

fn cmd(id: &str, fields: Vec<(&str, FieldValue)>) -> MQTTUpdate {
    let mut m = FieldMap::new();
    for (k, v) in fields {
        m.insert(s(k), v);
    }
    MQTTUpdate { update_type: DeviceUpdateType::ACTIVATION_CHANGE, device_id: s(id), topic: s("x"), update_fields: m }
}

#[test]
fn sim_commands() {
    let mut ds = vec![
        Device::restore(s("a"), DeviceType::Light, s("t"), s("A"), true, true, None),
        Device::restore(s("b"), DeviceType::Light, s("t"), s("B"), true, true, None),
    ];
    apply_sim_command(&mut ds, &cmd("b", vec![("activated", FieldValue::Bool(false))]));
    assert!(ds[0].activated && !ds[1].activated);
    apply_sim_command(&mut ds, &cmd("b", vec![("activated", FieldValue::Text(s("no")))]));
    assert!(ds[1].activated);
    apply_sim_command(&mut ds, &cmd("a", vec![("other", FieldValue::Bool(false))]));
    assert!(ds[0].activated);
    apply_sim_command(&mut ds, &cmd("zz", vec![("activated", FieldValue::Bool(false))]));
    assert!(ds[0].activated && ds[1].activated);
}

#[test]
fn sim_status_changes() {
    assert_eq!(sim_root_status(false, true), (true, true));
    assert_eq!(sim_root_status(true, true), (true, false));
    assert_eq!(sim_root_status(true, false), (false, false));
    assert_eq!(sim_root_status(false, false), (false, false));
}

#[test]
fn sim_readings_in_range() {
    for _ in 0..50 {
        let t = sim_reading(DeviceType::TempSensor);
        assert!((15..25).contains(&t));
        let l = sim_reading(DeviceType::LuxSensor);
        assert!((100..400).contains(&l));
        assert_eq!(sim_reading(DeviceType::Light), 0);
    }
}

#[test]
fn sim_value_updates() {
    let d = Device::restore(s("temp"), DeviceType::TempSensor, s("temperature"), s("T"), true, true, None);
    assert!(sim_value_update(&d, 21, false).is_none());
    let u = sim_value_update(&d, 21, true).unwrap();
    assert_eq!(u.update_type, DeviceUpdateType::VALUE_CHANGE);
    assert_eq!(u.device_id, "temp");
    assert_eq!(u.topic, "temperature");
    assert!(matches!(u.update_fields.get("value"), Some(FieldValue::Text(t)) if t == "21"));
}

#[test]
fn reading_bounds_per_type() {
    assert_eq!(reading_bounds(DeviceType::TempSensor), (15, 25));
    assert_eq!(reading_bounds(DeviceType::LuxSensor), (100, 400));
    assert_eq!(reading_bounds(DeviceType::Light), (0, 1));
}
