use smart_home::device::{Device, DeviceCounters, DeviceType};
use smart_home::devices::sensors::DeviceType as SimpleType;
use smart_home::devices::traits::Device as SimpleDevice;
use smart_home::text::{decimal_string, json_quote, text_eq};

fn s(x: &str) -> String {
    x.to_string()
}

#[test]
fn decimal_text_of_numbers() {
    assert_eq!(decimal_string(0), "0");
    assert_eq!(decimal_string(7), "7");
    assert_eq!(decimal_string(10), "10");
    assert_eq!(decimal_string(1234567), "1234567");
    assert_eq!(decimal_string(usize::MAX), usize::MAX.to_string());
}

#[test]
fn text_equality() {
    assert!(text_eq("abc", "abc"));
    assert!(!text_eq("abc", "abd"));
    assert!(!text_eq("", "a"));
}

#[test]
fn counters_hand_out_numbers_per_type() {
    let mut c = DeviceCounters::new();
    assert_eq!(c.get_num(DeviceType::TempSensor), 0);
    assert_eq!(c.get_num(DeviceType::TempSensor), 1);
    assert_eq!(c.get_num(DeviceType::Light), 0);
    assert_eq!(c.get_num(DeviceType::TempSensor), 2);
    assert_eq!(c.get_num(DeviceType::LuxSensor), 0);
}

#[test]
fn new_devices_get_label_and_number() {
    let mut c = DeviceCounters::new();
    let a = Device::new(DeviceType::TempSensor, s("ignored"), s("temperature"), &mut c);
    let b = Device::new(DeviceType::TempSensor, s("ignored"), s("temperature"), &mut c);
    let l = Device::new(DeviceType::Light, s("x"), s("lamps"), &mut c);
    let x = Device::new(DeviceType::LuxSensor, s("x"), s("lux"), &mut c);
    assert_eq!(a.get_id(), "Temp  0");
    assert_eq!(b.get_id(), "Temp  1");
    assert_eq!(l.get_id(), "Light  0");
    assert_eq!(x.get_id(), "Lux  0");
    assert_eq!(a.get_name(), "Temp ");
    assert_eq!(l.get_name(), "Light ");
    assert_eq!(a.topic, "temperature");
    assert!(a.get_activated());
    assert!(a.get_connection_status());
    assert_eq!(a.get_value(), None);
    assert!(a != b);
}

#[test]
fn toggle_and_value() {
    let mut c = DeviceCounters::new();
    let mut d = Device::new(DeviceType::Light, s(""), s("lamps"), &mut c);
    d.toggle();
    assert!(!d.get_activated());
    d.toggle();
    assert!(d.get_activated());
    d.set_value(Some(s("42")));
    assert_eq!(d.get_value(), Some(s("42")));
    d.set_value(None);
    assert_eq!(d.get_value(), None);
}

#[test]
fn update_takes_fields_of_same_device_only() {
    let mut d = Device::restore(s("lamp"), DeviceType::Light, s("t"), s("old"), true, true, None);
    let other = Device::restore(s("other"), DeviceType::TempSensor, s("u"), s("new"), false, false, Some(s("1")));
    d.update(&other);
    assert_eq!(d.name, "old");
    assert!(d.connected);
    let same = Device::restore(s("lamp"), DeviceType::TempSensor, s("u"), s("new"), false, false, Some(s("1")));
    d.update(&same);
    assert_eq!(d.name, "new");
    assert_eq!(d.device_type, DeviceType::TempSensor);
    assert!(!d.connected);
    assert!(!d.activated);
    assert_eq!(d.value, Some(s("1")));
    assert_eq!(d.topic, "t");
    assert_eq!(d.device_id, "lamp");
    // a second update with the same device changes nothing more
    d.update(&same);
    assert_eq!(d.name, "new");
    assert_eq!(d.value, Some(s("1")));
}

#[test]
fn devices_compare_by_id() {
    let a = Device::restore(s("x"), DeviceType::Light, s("t"), s("a"), true, true, None);
    let b = Device::restore(s("x"), DeviceType::TempSensor, s("u"), s("b"), false, false, Some(s("v")));
    let c = Device::restore(s("y"), DeviceType::Light, s("t"), s("a"), true, true, None);
    assert!(a == b);
    assert!(a != c);
    assert!(a == s("x"));
    assert!(a != s("y"));
    assert!(a.has_id(&s("x")));
    let d = a.duplicate();
    assert!(d == a);
    assert_eq!(d.name, "a");
}

#[test]
fn simple_device_model() {
    let mut d = SimpleDevice::new(s("id1"), SimpleType::Light, s("Lamp"), s("lamps"));
    assert_eq!(d.get_id(), "id1");
    assert_eq!(d.get_name(), "Lamp");
    assert!(d.get_activated());
    assert!(d.get_connection_status());
    assert_eq!(d.get_value(), &None);
    d.set_value(Some(s("on")));
    assert_eq!(d.get_value(), &Some(s("on")));
    let e = SimpleDevice::new(s("id1"), SimpleType::TempSensor, s("T"), s("x"));
    assert!(d == e);
    assert!(d == s("id1"));
    let f = d.duplicate();
    assert_eq!(f.value, Some(s("on")));
}

#[test]
fn activation_after_k_toggles() {
    let mut c = DeviceCounters::new();
    let mut d = Device::new(DeviceType::Light, s(""), s("lamps"), &mut c);
    for k in 0..7u32 {
        assert_eq!(d.get_activated(), k % 2 == 0);
        d.toggle();
    }
    assert_eq!(d.get_id(), "Light  0");
}

#[test]
fn json_quoting_matches_serde_json() {
    let samples = [
        "",
        "plain text",
        "quote \" and backslash \\",
        "tab\tline\nreturn\rback\u{8}feed\u{c}",
        "nul \u{0} unit \u{1f} bell \u{7}",
        "space and tilde ~ and del \u{7f}",
        "grüße 温度 🌡",
        "/slash/",
    ];
    for t in samples.iter() {
        let expected = serde_json::Value::String(t.to_string()).to_string();
        assert_eq!(json_quote(t), expected);
    }
}

#[test]
fn json_quoting_control_characters_use_hex() {
    assert_eq!(json_quote("\u{1}"), "\"\\u0001\"");
    assert_eq!(json_quote("\u{1b}"), "\"\\u001b\"");
    assert_eq!(json_quote("a\u{8}b"), "\"a\\bb\"");
}
