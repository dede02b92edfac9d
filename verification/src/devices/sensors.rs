use vstd::prelude::*;

verus! {

/// The kinds of device that the simple device model distinguishes.
#[derive(Clone, Copy, Debug)]
pub enum DeviceType {
    TempSensor,
    LuxSensor,
    Light,
}

} // verus!
