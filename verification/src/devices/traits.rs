use vstd::prelude::*;
use crate::device::{opt_text, copy_opt_string};
use crate::devices::sensors::DeviceType;

verus! {

/// A device whose id is chosen by its creator. Two devices are the same device when
/// their ids are equal.
pub struct Device {
    pub device_id: String,
    pub device_type: DeviceType,
    pub topic: String,
    pub name: String,
    pub connected: bool,
    pub activated: bool,
    pub value: Option<String>,
}

impl Device {
    /// A connected, activated device with the given id, type, name and topic and no value.
    pub fn new(device_id: String, device_type: DeviceType, name: String, topic: String) -> (d: Device)
        ensures
            d.device_id == device_id,
            d.device_type == device_type,
            d.name == name,
            d.topic == topic,
            d.connected,
            d.activated,
            d.value is None,
    {
        Device { device_id: device_id, device_type: device_type, name: name, connected: true, activated: true, value: None, topic: topic }
    }

    /// The device's id.
    pub fn get_id(&self) -> (r: &String)
        ensures
            r == &self.device_id,
    {
        &self.device_id
    }

    /// The device's name.
    pub fn get_name(&self) -> (r: &String)
        ensures
            r == &self.name,
    {
        &self.name
    }

    /// Whether the device is activated.
    pub fn get_activated(&self) -> (r: bool)
        ensures
            r == self.activated,
    {
        self.activated
    }

    /// Whether the device is connected.
    pub fn get_connection_status(&self) -> (r: bool)
        ensures
            r == self.connected,
    {
        self.connected
    }

    /// The device's last value, if it has one.
    pub fn get_value(&self) -> (r: &Option<String>)
        ensures
            r == &self.value,
    {
        return &self.value
    }

    /// Replaces the device's value; nothing else changes.
    pub fn set_value(&mut self, value: Option<String>)
        ensures
            final(self).value == value,
            final(self).device_id == old(self).device_id,
            final(self).device_type == old(self).device_type,
            final(self).topic == old(self).topic,
            final(self).name == old(self).name,
            final(self).connected == old(self).connected,
            final(self).activated == old(self).activated,
    {
        self.value = value;
    }

    /// A copy of the device with the same text in every field.
    pub fn duplicate(&self) -> (d: Device)
        ensures
            d.device_id@ == self.device_id@,
            d.device_type == self.device_type,
            d.topic@ == self.topic@,
            d.name@ == self.name@,
            d.connected == self.connected,
            d.activated == self.activated,
            opt_text(d.value) == opt_text(self.value),
    {
        Device {
            device_id: self.device_id.clone(),
            device_type: self.device_type,
            topic: self.topic.clone(),
            name: self.name.clone(),
            connected: self.connected,
            activated: self.activated,
            value: copy_opt_string(&self.value),
        }
    }
}

impl PartialEq for Device {
    fn eq(&self, other: &Device) -> (r: bool) {
        self.device_id == other.device_id
    }
}

impl vstd::std_specs::cmp::PartialEqSpecImpl for Device {
    open spec fn obeys_eq_spec() -> bool {
        true
    }

    open spec fn eq_spec(&self, other: &Device) -> bool {
        self.device_id@ == other.device_id@
    }
}

impl Eq for Device {
}

impl PartialEq<String> for Device {
    fn eq(&self, other: &String) -> (r: bool) {
        self.device_id == *other
    }
}

impl vstd::std_specs::cmp::PartialEqSpecImpl<String> for Device {
    open spec fn obeys_eq_spec() -> bool {
        true
    }

    open spec fn eq_spec(&self, other: &String) -> bool {
        self.device_id@ == other@
    }
}

} // verus!
