use vstd::prelude::*;

verus! {

/// Identifier of a device, unique within its topic.
pub type DeviceId = String;

/// MQTT topic under which devices are grouped.
pub type Topic = String;

/// Name of a room.
pub type RoomId = String;

/// Identifier handed out to a scenario when it is registered.
pub type ScenarioId = usize;

} // verus!
