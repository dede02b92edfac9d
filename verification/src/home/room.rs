use vstd::prelude::*;
use crate::devices::traits::Device;
use crate::typedef::RoomId;

verus! {

/// A room and the devices in it.
pub struct Room {
    room_name: RoomId,
    device_list: Vec<Device>,
}

} // verus!
