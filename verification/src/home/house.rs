use vstd::prelude::*;
use std::collections::HashMap;
use crate::home::room::Room;
use crate::typedef::RoomId;

verus! {

/// A house: its rooms by name.
pub struct House {
    rooms: HashMap<RoomId, Room>,
}

} // verus!
