use smart_home::dispatch::{classify_message, MessageKind};
use smart_home::net::client::ws_msg::{CommandType, WsMessageType};
use smart_home::net::device_update::{bool_string, FieldMap, FieldValue, MQTTUpdate, DeviceUpdateType};

fn s(x: &str) -> String {
    x.to_string()
}

#[test]
fn message_type_names() {
    let all = [
        WsMessageType::VALUE_GET,
        WsMessageType::DEVICE_CMD,
        WsMessageType::DEVICE_UPDATE,
        WsMessageType::SCENARIO_UPDATE,
        WsMessageType::DEVICE_LIST,
        WsMessageType::VALUE,
        WsMessageType::UNKNOWN,
    ];
    for t in all {
        assert_eq!(WsMessageType::from(t.into_string()), t);
    }
    assert_eq!(WsMessageType::DEVICE_CMD.into_string(), "DEVICE_CMD");
    assert_eq!(WsMessageType::from(s("VALUE")), WsMessageType::VALUE);
    assert_eq!(WsMessageType::from(s("value")), WsMessageType::UNKNOWN);
    assert_eq!(WsMessageType::from(s("")), WsMessageType::UNKNOWN);
}

#[test]
fn command_names() {
    for c in [CommandType::TOGGLE, CommandType::ENABLE, CommandType::DISABLE, CommandType::UNKNOWN] {
        assert_eq!(CommandType::from(c.into_string()), c);
    }
    assert_eq!(CommandType::ENABLE.into_string(), "ENABLE");
    assert_eq!(CommandType::from(s("toggle")), CommandType::UNKNOWN);
    let t: CommandType = s("DISABLE").into();
    assert_eq!(t, CommandType::DISABLE);
}

#[test]
fn classify_content_types() {
    assert_eq!(classify_message("device_update"), MessageKind::DeviceUpdate);
    assert_eq!(classify_message("add_device"), MessageKind::AddDevice);
    assert_eq!(classify_message("unknown"), MessageKind::Unknown);
    assert_eq!(classify_message(""), MessageKind::Unknown);
}

#[test]
fn field_map_read_after_write() {
    let mut m = FieldMap::new();
    assert_eq!(m.len(), 0);
    assert!(m.insert(s("a"), FieldValue::Bool(true)).is_none());
    assert!(m.insert(s("b"), FieldValue::Null).is_none());
    let old = m.insert(s("a"), FieldValue::Text(s("x")));
    assert!(matches!(old, Some(FieldValue::Bool(true))));
    assert_eq!(m.len(), 2);
    assert!(matches!(m.get("a"), Some(FieldValue::Text(t)) if t == "x"));
    assert!(matches!(m.get("b"), Some(FieldValue::Null)));
    assert!(m.get("c").is_none());
    let (k, _) = m.entry(1);
    assert_eq!(k, "b");
}

#[test]
fn field_values() {
    assert_eq!(FieldValue::Bool(false).as_bool(), Some(false));
    assert_eq!(FieldValue::Text(s("true")).as_bool(), None);
    assert_eq!(FieldValue::Null.as_bool(), None);
    assert_eq!(FieldValue::Null.to_json_text(), "null");
    assert_eq!(FieldValue::Bool(true).to_json_text(), "true");
    assert_eq!(FieldValue::Text(s("21")).to_json_text(), "\"21\"");
    assert_eq!(FieldValue::Text(s("a\"b\\c\n")).to_json_text(), "\"a\\\"b\\\\c\\n\"");
    assert_eq!(FieldValue::Raw(s("[1,2]")).to_json_text(), "[1,2]");
    assert_eq!(bool_string(true), "true");
    assert_eq!(bool_string(false), "false");
}

#[test]
fn activation_update() {
    let u = MQTTUpdate::activation(s("d"), s("t"), false);
    assert_eq!(u.update_type, DeviceUpdateType::ACTIVATION_CHANGE);
    assert_eq!(u.device_id, "d");
    assert_eq!(u.topic, "t");
    assert_eq!(u.update_fields.len(), 1);
    assert!(matches!(u.update_fields.get("activated"), Some(FieldValue::Text(t)) if t == "false"));
}
