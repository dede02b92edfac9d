use vstd::prelude::*;
use rand::Rng;
use crate::device::{Device, DeviceType};
use crate::net::device_update::{DeviceUpdateType, FieldMap, FieldValue, MQTTUpdate};
use crate::text::{decimal, decimal_string, owned};

verus! {

/// Whether position `i` holds the first device with id `id`.
pub open spec fn is_first_device(ds: Seq<Device>, id: Seq<char>, i: int) -> bool {
    &&& 0 <= i < ds.len()
    &&& ds[i]@.device_id == id
    &&& forall|j: int| 0 <= j < i ==> (#[trigger] ds[j])@.device_id != id
}

/// Applies an activation command from the broker to the simulated devices: the first
/// device with the command's id takes the boolean in the field `activated`, `true` when
/// that field holds no boolean. Without such a device or such a field nothing changes.
pub fn apply_sim_command(devices: &mut Vec<Device>, cmd: &MQTTUpdate)
    requires
        cmd.update_type == DeviceUpdateType::ACTIVATION_CHANGE,
    ensures
        (forall|i: int| !is_first_device(old(devices)@, cmd.device_id@, i)) || !cmd.update_fields@.dom().contains("activated"@)
            ==> final(devices)@ == old(devices)@,
        forall|i: int| is_first_device(old(devices)@, cmd.device_id@, i) && cmd.update_fields@.dom().contains("activated"@)
            ==> final(devices)@ == old(devices)@.update(i, Device {
                activated: match cmd.update_fields@["activated"@] {
                    FieldValue::Bool(b) => b,
                    _ => true,
                },
                ..old(devices)@[i]
            }),
{
    let ghost s = devices@;
    let mut i: usize = 0;
    while i < devices.len()
        invariant
            i <= s.len(),
            devices@ == s,
            s == old(devices)@,
            forall|j: int| 0 <= j < i ==> (#[trigger] s[j])@.device_id != cmd.device_id@,
        decreases s.len() - i,
    {
        if devices[i].device_id == cmd.device_id {
            assert(is_first_device(s, cmd.device_id@, i as int));
            assert forall|k: int| is_first_device(s, cmd.device_id@, k) implies k == i by {
                if k < i { assert(s[k]@.device_id != cmd.device_id@); }
                if k > i { assert(s[i as int]@.device_id != cmd.device_id@); }
            }
            let field = match cmd.update_fields.get("activated") {
                Some(f) => f,
                None => { return; },
            };
            let activated = match field.as_bool() {
                Some(b) => b,
                None => true,
            };
            let mut d = devices.remove(i);
            d.activated = activated;
            devices.insert(i, d);
            assert(devices@ =~= s.update(i as int, Device { activated, ..s[i as int] }));
            return;
        }
        i = i + 1;
    }
    assert forall|k: int| !is_first_device(s, cmd.device_id@, k) by {
        if 0 <= k < s.len() { assert(s[k]@.device_id != cmd.device_id@); }
    }
}

/// What a status message on `root_online` does to the simulator: the hub's new online
/// state, and whether the device list is to be announced (when the hub comes online).
pub fn sim_root_status(root_online: bool, connected: bool) -> (r: (bool, bool))
    ensures
        r == (connected, connected && !root_online),
{
    match connected {
        true => {
            if root_online {
                (true, false)
            } else {
                (true, true)
            }
        },
        false => {
            if !root_online {
                (false, false)
            } else {
                (false, false)
            }
        },
    }
}

/// Calls `rand::thread_rng().gen_range(lo..hi)`; the result depends on chance, and the
/// contract states only that it lies in the range (the range is required to be non-empty,
/// as `gen_range` panics on an empty one).
#[verifier::external_body]
fn random_in_range(lo: u32, hi: u32) -> (r: u32)
    requires
        lo < hi,
    ensures
        lo <= r < hi,
{
    rand::thread_rng().gen_range(lo..hi)
}

/// The range, lower bound included and upper bound excluded, from which a simulated
/// device of the given type draws its readings.
pub open spec fn reading_range(t: DeviceType) -> (u32, u32) {
    match t {
        DeviceType::TempSensor => (15, 25),
        DeviceType::LuxSensor => (100, 400),
        DeviceType::Light => (0, 1),
    }
}

/// The bounds from which a simulated device of the given type draws its readings.
pub fn reading_bounds(t: DeviceType) -> (b: (u32, u32))
    ensures
        b == reading_range(t),
{
    match t {
        DeviceType::TempSensor => (15, 25),
        DeviceType::LuxSensor => (100, 400),
        DeviceType::Light => (0, 1),
    }
}

/// A random reading for a simulated device of the given type, drawn from
/// `reading_bounds(t)`.
pub fn sim_reading(t: DeviceType) -> (r: u32)
    ensures
        reading_range(t).0 <= r < reading_range(t).1,
{
    let (lo, hi) = reading_bounds(t);
    random_in_range(lo, hi)
}

/// Whether `u` reports the value `text` for device `id` on `topic`: a value change whose
/// only field, `value`, holds that text.
pub open spec fn is_value_update(u: MQTTUpdate, id: Seq<char>, topic: Seq<char>, text: Seq<char>) -> bool {
    &&& u.update_type == DeviceUpdateType::VALUE_CHANGE
    &&& u.device_id@ == id
    &&& u.topic@ == topic
    &&& u.update_fields@.dom() == set!["value"@]
    &&& u.update_fields@["value"@] matches FieldValue::Text(t) && t@ == text
}

/// The value update a simulated device publishes for a reading while the hub is online:
/// its id and topic and one field `value` holding the reading as decimal text. Nothing
/// is published while the hub is offline.
pub fn sim_value_update(device: &Device, reading: u32, root_online: bool) -> (r: Option<MQTTUpdate>)
    ensures
        !root_online ==> r is None,
        root_online ==> (r matches Some(u) && is_value_update(u, device@.device_id, device@.topic, decimal(reading as nat))),
{
    let mut new_val = FieldMap::new();
    let _ = new_val.insert(owned("value"), FieldValue::Text(decimal_string(reading as usize)));
    assert(new_val@.dom() =~= set!["value"@]);
    if !root_online {
        return None;
    }
    Some(MQTTUpdate {
        update_type: DeviceUpdateType::VALUE_CHANGE,
        device_id: device.device_id.clone(),
        topic: device.topic.clone(),
        update_fields: new_val,
    })
}

} // verus!
