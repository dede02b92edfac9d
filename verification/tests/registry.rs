use smart_home::container::{CommandError, DeviceContainer, UpdateError, ValueError};
use smart_home::device::{Device, DeviceType};
use smart_home::net::client::ws_msg::CommandType;
use smart_home::net::device_update::{DeviceUpdateType, FieldMap, FieldValue, MQTTList, MQTTUpdate};

fn s(x: &str) -> String {
    x.to_string()
}

fn dev(id: &str, topic: &str, name: &str) -> Device {
    Device::restore(s(id), DeviceType::TempSensor, s(topic), s(name), true, true, None)
}

fn update(t: DeviceUpdateType, id: &str, topic: &str, fields: Vec<(&str, FieldValue)>) -> MQTTUpdate {
    let mut m = FieldMap::new();
    for (k, v) in fields {
        m.insert(s(k), v);
    }
    MQTTUpdate { update_type: t, device_id: s(id), topic: s(topic), update_fields: m }
}

fn ids(c: &DeviceContainer) -> Vec<String> {
    c.all_devices().iter().map(|d| d.device_id.clone()).collect()
}

#[test]
fn upsert_groups_by_topic_in_order() {
    let mut c = DeviceContainer::new();
    c.upsert_device(&dev("a", "t1", "A"));
    c.upsert_device(&dev("b", "t2", "B"));
    c.upsert_device(&dev("c", "t1", "C"));
    assert_eq!(ids(&c), vec![s("a"), s("c"), s("b")]);
}

#[test]
fn upsert_refreshes_existing_device() {
    let mut c = DeviceContainer::new();
    c.upsert_device(&dev("a", "t1", "A"));
    let mut fresh = Device::restore(s("a"), DeviceType::Light, s("t1"), s("A2"), false, false, Some(s("9")));
    c.upsert_device(&fresh);
    let all = c.all_devices();
    assert_eq!(all.len(), 1);
    assert_eq!(all[0].name, "A2");
    assert_eq!(all[0].device_type, DeviceType::Light);
    assert!(!all[0].connected);
    assert!(!all[0].activated);
    assert_eq!(all[0].value, Some(s("9")));
    // adding the same device again changes nothing
    c.upsert_device(&fresh);
    assert_eq!(c.all_devices().len(), 1);
    fresh.name = s("A3");
    c.upsert_device(&fresh);
    assert_eq!(c.all_devices()[0].name, "A3");
    assert_eq!(c.get_value(&s("t1"), &s("a")), Ok((s("a"), s("9"))));
}

#[test]
fn add_to_device_list_snapshots() {
    let mut c = DeviceContainer::new();
    assert!(c.add_to_device_list(&MQTTList::new(vec![])).is_none());
    let snaps = c
        .add_to_device_list(&MQTTList::new(vec![dev("a", "t1", "A"), dev("b", "t2", "B"), dev("a", "t1", "A2")]))
        .unwrap();
    assert_eq!(snaps.len(), 3);
    assert_eq!(snaps[0].len(), 1);
    assert_eq!(snaps[1].len(), 2);
    assert_eq!(snaps[2].len(), 2);
    assert_eq!(snaps[2][0].name, "A2");
    assert_eq!(ids(&c), vec![s("a"), s("b")]);
}

#[test]
fn mqtt_list_new() {
    assert!(MQTTList::new(vec![]).device_list.is_none());
    assert_eq!(MQTTList::new(vec![dev("a", "t", "A")]).device_list.map(|l| l.len()), Some(1));
}

#[test]
fn update_device_errors() {
    let mut c = DeviceContainer::new();
    c.upsert_device(&dev("a", "t1", "A"));
    let u = update(DeviceUpdateType::CONN_CHANGE, "a", "nope", vec![("connected", FieldValue::Bool(false))]);
    assert_eq!(c.update_device(&u).err(), Some(UpdateError::TopicNotFound));
    let u = update(DeviceUpdateType::CONN_CHANGE, "zz", "t1", vec![("connected", FieldValue::Bool(false))]);
    assert_eq!(c.update_device(&u).err(), Some(UpdateError::DeviceNotFound));
    let u = update(DeviceUpdateType::CONN_CHANGE, "a", "t1", vec![]);
    assert_eq!(c.update_device(&u).err(), Some(UpdateError::MissingField));
    let u = update(DeviceUpdateType::CONN_CHANGE, "a", "t1", vec![("connected", FieldValue::Text(s("false")))]);
    assert_eq!(c.update_device(&u).err(), Some(UpdateError::NotABoolean));
    let u = update(DeviceUpdateType::ALL, "a", "t1", vec![]);
    assert_eq!(c.update_device(&u).err(), Some(UpdateError::UnsupportedUpdate));
    let u = update(DeviceUpdateType::VALUE_CHANGE, "a", "t1", vec![("other", FieldValue::Null)]);
    assert_eq!(c.update_device(&u).err(), Some(UpdateError::MissingField));
    let all = c.all_devices();
    assert!(all[0].connected && all[0].activated && all[0].value.is_none());
}

#[test]
fn update_device_changes() {
    let mut c = DeviceContainer::new();
    c.upsert_device(&dev("a", "t1", "A"));
    let u = update(DeviceUpdateType::CONN_CHANGE, "a", "t1", vec![("connected", FieldValue::Bool(false))]);
    let d = c.update_device(&u).unwrap();
    assert!(!d.connected);
    // an activation change reads the field `connected`
    let u = update(DeviceUpdateType::ACTIVATION_CHANGE, "a", "t1", vec![("activated", FieldValue::Bool(true)), ("connected", FieldValue::Bool(false))]);
    let d = c.update_device(&u).unwrap();
    assert!(!d.activated);
    let u = update(DeviceUpdateType::ACTIVATION_CHANGE, "a", "t1", vec![("activated", FieldValue::Bool(false))]);
    assert_eq!(c.update_device(&u).err(), Some(UpdateError::MissingField));
    // a value change stores the JSON text of the value
    let u = update(DeviceUpdateType::VALUE_CHANGE, "a", "t1", vec![("value", FieldValue::Text(s("21")))]);
    let d = c.update_device(&u).unwrap();
    assert_eq!(d.value, Some(s("\"21\"")));
    let u = update(DeviceUpdateType::VALUE_CHANGE, "a", "t1", vec![("value", FieldValue::Raw(s("3.5")))]);
    assert_eq!(c.update_device(&u).unwrap().value, Some(s("3.5")));
    let u = update(DeviceUpdateType::VALUE_CHANGE, "a", "t1", vec![("value", FieldValue::Null)]);
    assert_eq!(c.update_device(&u).unwrap().value, Some(s("null")));
    let u = update(DeviceUpdateType::VALUE_CHANGE, "a", "t1", vec![("value", FieldValue::Bool(true))]);
    assert_eq!(c.update_device(&u).unwrap().value, Some(s("true")));
    let all = c.all_devices();
    assert!(!all[0].connected);
    assert_eq!(all[0].value, Some(s("true")));
}

#[test]
fn commands() {
    let mut c = DeviceContainer::new();
    c.upsert_device(&dev("a", "t1", "A"));
    assert_eq!(c.apply_command(&s("zz"), CommandType::TOGGLE).err(), Some(CommandError::DeviceNotFound));
    assert_eq!(c.apply_command(&s("a"), CommandType::UNKNOWN).err(), Some(CommandError::UnknownCommand));
    let (d, u) = c.apply_command(&s("a"), CommandType::TOGGLE).unwrap();
    assert!(!d.activated);
    assert_eq!(u.update_type, DeviceUpdateType::ACTIVATION_CHANGE);
    assert_eq!(u.device_id, "a");
    assert_eq!(u.topic, "t1");
    assert!(matches!(u.update_fields.get("activated"), Some(FieldValue::Text(t)) if t == "false"));
    let (d, _) = c.apply_command(&s("a"), CommandType::TOGGLE).unwrap();
    assert!(d.activated);
    let (d, _) = c.apply_command(&s("a"), CommandType::DISABLE).unwrap();
    assert!(!d.activated);
    let (d, u) = c.apply_command(&s("a"), CommandType::ENABLE).unwrap();
    assert!(d.activated);
    assert!(matches!(u.update_fields.get("activated"), Some(FieldValue::Text(t)) if t == "true"));
    assert!(c.all_devices()[0].activated);
}

#[test]
fn command_reaches_first_device_in_topic_order() {
    let mut c = DeviceContainer::new();
    c.upsert_device(&dev("a", "t1", "first"));
    c.upsert_device(&dev("a", "t2", "second"));
    let (d, u) = c.apply_command(&s("a"), CommandType::DISABLE).unwrap();
    assert_eq!(d.name, "first");
    assert_eq!(u.topic, "t1");
    let all = c.all_devices();
    assert!(!all[0].activated);
    assert!(all[1].activated);
    assert_eq!(c.find_device(&s("a")).unwrap().name, "first");
    assert!(c.find_device(&s("b")).is_none());
}

#[test]
fn replace_device_adds_topic_and_updates() {
    let mut c = DeviceContainer::new();
    assert!(!c.replace_device(&dev("a", "t1", "A")));
    assert_eq!(c.all_devices().len(), 0);
    assert_eq!(c.get_value(&s("t1"), &s("a")), Err(ValueError::DeviceNotFound));
    c.upsert_device(&dev("a", "t1", "A"));
    let mut r = dev("a", "t1", "renamed");
    r.value = Some(s("v"));
    assert!(c.replace_device(&r));
    assert_eq!(c.all_devices()[0].name, "renamed");
    assert_eq!(c.get_value(&s("t1"), &s("a")), Ok((s("a"), s("v"))));
}

#[test]
fn get_value_reports() {
    let mut c = DeviceContainer::new();
    c.upsert_device(&dev("a", "t1", "A"));
    assert_eq!(c.get_value(&s("t9"), &s("a")), Err(ValueError::TopicNotFound));
    assert_eq!(c.get_value(&s("t1"), &s("b")), Err(ValueError::DeviceNotFound));
    assert_eq!(c.get_value(&s("t1"), &s("a")), Ok((s("a"), s("null"))));
}

#[test]
fn toggle_devices_by_ids() {
    let mut c = DeviceContainer::new();
    c.upsert_device(&dev("a", "t1", "A"));
    c.upsert_device(&dev("b", "t1", "B"));
    c.upsert_device(&dev("c", "t2", "C"));
    let r = c.toggle_devices(&vec![s("c"), s("a"), s("zz")]);
    assert_eq!(r.len(), 2);
    assert_eq!(r[0].0.device_id, "a");
    assert_eq!(r[1].0.device_id, "c");
    assert!(!r[0].0.activated);
    assert_eq!(r[1].1.topic, "t2");
    let all = c.all_devices();
    assert!(!all[0].activated && all[1].activated && !all[2].activated);
    // toggling the same ids again restores the registry
    c.toggle_devices(&vec![s("c"), s("a"), s("zz")]);
    assert!(c.all_devices().iter().all(|d| d.activated));
    assert_eq!(c.toggle_devices(&vec![]).len(), 0);
}

#[test]
fn adding_a_list_twice_changes_nothing_more() {
    let mut c = DeviceContainer::new();
    c.upsert_device(&dev("old", "t2", "O"));
    let mut second = dev("a", "t1", "A2");
    second.value = Some(s("x"));
    let list = || vec![dev("a", "t1", "A1"), dev("b", "t2", "B"), second.duplicate(), dev("c", "t3", "C")];
    c.add_to_device_list(&MQTTList::new(list()));
    let once: Vec<(String, String, Option<String>)> =
        c.all_devices().iter().map(|d| (d.device_id.clone(), d.name.clone(), d.value.clone())).collect();
    assert_eq!(
        once,
        vec![
            (s("old"), s("O"), None),
            (s("b"), s("B"), None),
            (s("a"), s("A2"), Some(s("x"))),
            (s("c"), s("C"), None),
        ]
    );
    c.add_to_device_list(&MQTTList::new(list()));
    let twice: Vec<(String, String, Option<String>)> =
        c.all_devices().iter().map(|d| (d.device_id.clone(), d.name.clone(), d.value.clone())).collect();
    assert_eq!(once, twice);
}
