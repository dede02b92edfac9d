use smart_home::automatisation::voice_recognition::ScenarioTypes;
use smart_home::container::DeviceContainer;
use smart_home::device::{Device, DeviceType};
use smart_home::home::scenarios::{parse_i32, remove_scenario, ConditionalTrigger, Scenario, ScenarioRegistry, TimedToggle, WatchOutcome};
use smart_home::net::client::ws_conn::{plan_timed_toggle, plan_timed_toggle_request, threshold_range, ScenarioError};
use smart_home::net::client::ws_msg::PayloadScenarioTimedToggle;
use smart_home::net::device_update::FieldValue;

fn s(x: &str) -> String {
    x.to_string()
}

fn dev(id: &str, topic: &str, value: Option<&str>) -> Device {
    Device::restore(s(id), DeviceType::TempSensor, s(topic), s(id), true, true, value.map(|v| s(v)))
}

#[test]
fn registry_hands_out_ids_and_removes() {
    let mut r = ScenarioRegistry::new();
    let a = TimedToggle::new(10, vec![s("x")], &mut r);
    let b = ConditionalTrigger::new(s("sensor"), 0..5, s("lamp"), &mut r);
    assert_eq!(a, 0);
    assert_eq!(b, Ok(1));
    assert_eq!(r.next_id, 2);
    assert_eq!(r.scenarios.len(), 2);
    assert_eq!(r.scenarios[0].get_id(), 0);
    assert_eq!(r.scenarios[1].get_type(), ScenarioTypes::SENSOR_CONDITIONAL);
    assert_eq!(remove_scenario(&mut r, 7), None);
    assert_eq!(r.scenarios.len(), 2);
    assert_eq!(remove_scenario(&mut r, 0), Some(ScenarioTypes::TIMED));
    assert_eq!(r.scenarios.len(), 1);
    assert_eq!(r.scenarios[0].get_id(), 1);
    assert_eq!(remove_scenario(&mut r, 0), None);
    assert_eq!(r.next_id, 2);
}

#[test]
fn remove_right_after_register_restores() {
    let mut r = ScenarioRegistry::new();
    let _ = TimedToggle::new(1, vec![], &mut r);
    let id = ConditionalTrigger::new(s("a"), 1..2, s("b"), &mut r).unwrap();
    assert_eq!(remove_scenario(&mut r, id), Some(ScenarioTypes::SENSOR_CONDITIONAL));
    assert_eq!(r.scenarios.len(), 1);
    assert_eq!(r.scenarios[0].get_id(), 0);
}

#[test]
fn timed_toggle_fires() {
    let mut c = DeviceContainer::new();
    c.upsert_device(&dev("lamp", "t", None));
    let mut r = ScenarioRegistry::new();
    let devices = vec![s("lamp")];
    let id = TimedToggle::new(5, devices.clone(), &mut r);
    let (out, removed) = TimedToggle::start_toggle(&devices, id, &mut c, &mut r);
    assert_eq!(removed, Some(ScenarioTypes::TIMED));
    assert_eq!(out.len(), 1);
    assert!(!out[0].0.activated);
    assert!(matches!(out[0].1.update_fields.get("activated"), Some(FieldValue::Text(t)) if t == "false"));
    assert_eq!(r.scenarios.len(), 0);
    // nothing to toggle: the scenario stays
    let id2 = TimedToggle::new(5, vec![s("gone")], &mut r);
    let (out, removed) = TimedToggle::start_toggle(&vec![s("gone")], id2, &mut c, &mut r);
    assert_eq!(removed, None);
    assert_eq!(out.len(), 0);
    assert_eq!(r.scenarios.len(), 1);
}

#[test]
fn conditional_trigger_reacts() {
    let mut c = DeviceContainer::new();
    c.upsert_device(&dev("lamp", "t", None));
    let mut r = ScenarioRegistry::new();
    let _ = ConditionalTrigger::new(s("sensor"), 10..20, s("lamp"), &mut r);
    let trig = ConditionalTrigger { s_id: 0, sensor_id: s("sensor"), treshold: 10..20, tgt_dev: s("lamp") };
    assert!(matches!(trig.react(&mut c, &mut r, 9), WatchOutcome::Waiting));
    assert!(matches!(trig.react(&mut c, &mut r, 20), WatchOutcome::Waiting));
    assert_eq!(r.scenarios.len(), 1);
    match trig.react(&mut c, &mut r, 10) {
        WatchOutcome::Fired(u, removed) => {
            assert_eq!(removed, Some(ScenarioTypes::SENSOR_CONDITIONAL));
            assert_eq!(u.device_id, "lamp");
            assert!(matches!(u.update_fields.get("activated"), Some(FieldValue::Text(t)) if t == "false"));
        }
        _ => panic!("expected the trigger to fire"),
    }
    assert_eq!(r.scenarios.len(), 0);
    assert!(!c.all_devices()[0].activated);
    let other = ConditionalTrigger { s_id: 3, sensor_id: s("sensor"), treshold: 0..5, tgt_dev: s("nothing") };
    assert!(matches!(other.react(&mut c, &mut r, 1), WatchOutcome::TargetMissing));
}

#[test]
fn conditional_trigger_watches_sensor() {
    let mut c = DeviceContainer::new();
    let mut r = ScenarioRegistry::new();
    let trig = ConditionalTrigger { s_id: 0, sensor_id: s("sensor"), treshold: 10..20, tgt_dev: s("lamp") };
    assert!(matches!(trig.watch_tick(&mut c, &mut r), WatchOutcome::SensorMissing));
    c.upsert_device(&dev("sensor", "s", None));
    c.upsert_device(&dev("lamp", "t", None));
    assert!(matches!(trig.watch_tick(&mut c, &mut r), WatchOutcome::Waiting));
    c.upsert_device(&dev("sensor", "s", Some("25")));
    assert!(matches!(trig.watch_tick(&mut c, &mut r), WatchOutcome::Waiting));
    // a value that is not a number reads as zero
    c.upsert_device(&dev("sensor", "s", Some("\"15\"")));
    assert!(matches!(trig.watch_tick(&mut c, &mut r), WatchOutcome::Waiting));
    let low = ConditionalTrigger { s_id: 0, sensor_id: s("sensor"), treshold: -5..1, tgt_dev: s("lamp") };
    assert!(matches!(low.watch_tick(&mut c, &mut r), WatchOutcome::Fired(_, _)));
    c.upsert_device(&dev("sensor", "s", Some("+15")));
    assert!(matches!(trig.watch_tick(&mut c, &mut r), WatchOutcome::Fired(_, _)));
    assert!(c.all_devices()[1].activated);
}

#[test]
fn threshold_ranges() {
    assert_eq!(threshold_range(5, true), 5..i32::MAX);
    assert_eq!(threshold_range(5, false), i32::MIN..5);
}

#[test]
fn planning_timed_toggles() {
    let mut c = DeviceContainer::new();
    assert_eq!(plan_timed_toggle(&c, &s("x"), Some((100, 0)), 0), Err(ScenarioError::DeviceNotFound));
    c.upsert_device(&dev("x", "t", None));
    assert_eq!(plan_timed_toggle(&c, &s("x"), None, 0), Err(ScenarioError::MalformedTime));
    assert_eq!(plan_timed_toggle(&c, &s("x"), Some((100, 0)), 101), Err(ScenarioError::TimeInPast));
    assert_eq!(plan_timed_toggle(&c, &s("x"), Some((100, 60)), 100), Ok((s("x"), 60)));
    assert_eq!(plan_timed_toggle(&c, &s("x"), Some((i64::MAX, 86399)), i64::MIN), Err(ScenarioError::OutOfRange));
    let p = PayloadScenarioTimedToggle { sensor_id: s("x"), time: s("2024-01-01T00:00:00+01:00") };
    assert_eq!(plan_timed_toggle_request(&c, &p, 1704067100), Ok((s("x"), 100)));
    let bad = PayloadScenarioTimedToggle { sensor_id: s("x"), time: s("tomorrow") };
    assert_eq!(plan_timed_toggle_request(&c, &bad, 0), Err(ScenarioError::MalformedTime));
}

#[test]
fn parsing_readings_like_std() {
    let cases = [
        "0", "007", "+15", "-15", "-0", "2147483647", "2147483648", "-2147483648", "-2147483649",
        "99999999999999999999", "", "+", "-", " 1", "1 ", "1_000", "+-1", "12a", "٣", "21\"", "\"21\"",
    ];
    for c in cases {
        assert_eq!(parse_i32(c), c.parse::<i32>().ok(), "case {:?}", c);
    }
    assert_eq!(parse_i32("-2147483648"), Some(i32::MIN));
    assert_eq!(parse_i32("2147483648"), None);
}
