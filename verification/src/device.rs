use vstd::prelude::*;
use crate::text::{decimal, push_decimal, owned, decimal_injective};

verus! {

/// The kinds of device the hub knows.
#[derive(Clone, Copy, Debug, PartialEq, Eq, Hash, Structural)]
pub enum DeviceType {
    TempSensor,
    LuxSensor,
    Light,
}

/// Per-type counters from which device numbers are drawn.
///
/// Each counter starts at zero; drawing a number hands out the current value and
/// advances the counter by one, wrapping at `usize::MAX` as an atomic `fetch_add` does.
pub struct DeviceCounters {
    temp_sensors: usize,
    lux_sensors: usize,
    lights: usize,
}

impl DeviceCounters {
    /// The number that the next draw for `t` hands out.
    pub closed spec fn next_num(&self, t: DeviceType) -> usize {
        match t {
            DeviceType::TempSensor => self.temp_sensors,
            DeviceType::LuxSensor => self.lux_sensors,
            DeviceType::Light => self.lights,
        }
    }

    /// Fresh counters: every type starts at zero.
    pub fn new() -> (c: DeviceCounters)
        ensures
            forall|t: DeviceType| c.next_num(t) == 0,
    {
        DeviceCounters { temp_sensors: 0, lux_sensors: 0, lights: 0 }
    }

    /// Draws the next number for `in_type`: returns the counter's value and advances it
    /// (with wrap-around); the other counters stay as they were.
    pub fn get_num(&mut self, in_type: DeviceType) -> (n: usize)
        ensures
            n == old(self).next_num(in_type),
            final(self).next_num(in_type) == old(self).next_num(in_type).wrapping_add(1),
            forall|t: DeviceType| t != in_type ==> final(self).next_num(t) == old(self).next_num(t),
    {
        match in_type {
            DeviceType::TempSensor => {
                let n = self.temp_sensors;
                self.temp_sensors = n.wrapping_add(1);
                n
            },
            DeviceType::LuxSensor => {
                let n = self.lux_sensors;
                self.lux_sensors = n.wrapping_add(1);
                n
            },
            DeviceType::Light => {
                let n = self.lights;
                self.lights = n.wrapping_add(1);
                n
            },
        }
    }
}

/// The label that names a device of the given type, as its name and the start of its id.
pub open spec fn type_label(t: DeviceType) -> Seq<char> {
    match t {
        DeviceType::TempSensor => "Temp "@,
        DeviceType::LuxSensor => "Lux "@,
        DeviceType::Light => "Light "@,
    }
}

/// The id that a device of type `t` gets when it is created with number `n`:
/// its label, a space, and the number in decimal.
pub open spec fn device_id_for(t: DeviceType, n: nat) -> Seq<char> {
    type_label(t) + " "@ + decimal(n)
}

/// Devices created with different types or different numbers get different ids, so the
/// ids that `Device::new` hands out are unique as long as no counter wraps around.
pub proof fn device_ids_distinct(t1: DeviceType, n1: nat, t2: DeviceType, n2: nat)
    requires
        t1 != t2 || n1 != n2,
    ensures
        device_id_for(t1, n1) != device_id_for(t2, n2),
{
    reveal_strlit("Temp ");
    reveal_strlit("Lux ");
    reveal_strlit("Light ");
    reveal_strlit(" ");
    let a = device_id_for(t1, n1);
    let b = device_id_for(t2, n2);
    if a == b {
        if t1 == t2 {
            let k = type_label(t1).len() + 1;
            assert(a.subrange(k as int, a.len() as int) =~= decimal(n1));
            assert(b.subrange(k as int, b.len() as int) =~= decimal(n2));
            decimal_injective(n1, n2);
        } else {
            assert(a[0] == type_label(t1)[0]);
            assert(b[0] == type_label(t2)[0]);
            assert(a[1] == type_label(t1)[1]);
            assert(b[1] == type_label(t2)[1]);
        }
    }
}

/// The mathematical value of a device: every field taken by its text.
pub struct DeviceView {
    pub device_id: Seq<char>,
    pub device_type: DeviceType,
    pub topic: Seq<char>,
    pub name: Seq<char>,
    pub connected: bool,
    pub activated: bool,
    pub value: Option<Seq<char>>,
}

/// The text of an optional string.
pub open spec fn opt_text(v: Option<String>) -> Option<Seq<char>> {
    match v {
        Some(s) => Some(s@),
        None => None,
    }
}

/// A device known to the hub. Two devices are the same device when their ids are equal.
pub struct Device {
    pub device_id: String,
    pub device_type: DeviceType,
    pub topic: String,
    pub name: String,
    pub connected: bool,
    pub activated: bool,
    pub value: Option<String>,
}

impl View for Device {
    type V = DeviceView;

    open spec fn view(&self) -> DeviceView {
        DeviceView {
            device_id: self.device_id@,
            device_type: self.device_type,
            topic: self.topic@,
            name: self.name@,
            connected: self.connected,
            activated: self.activated,
            value: opt_text(self.value),
        }
    }
}

fn type_label_string(t: DeviceType) -> (s: String)
    ensures
        s@ == type_label(t),
{
    match t {
        DeviceType::TempSensor => owned("Temp "),
        DeviceType::LuxSensor => owned("Lux "),
        DeviceType::Light => owned("Light "),
    }
}

/// A copy of an optional string with the same text.
pub fn copy_opt_string(v: &Option<String>) -> (r: Option<String>)
    ensures
        opt_text(r) == opt_text(*v),
{
    match v {
        Some(s) => Some(s.clone()),
        None => None,
    }
}

impl Device {
    /// Creates a device of the given type on `topic`. Its name is the label of its type,
    /// its id the label followed by a space and the next number that `counters` hands out
    /// for that type; it starts connected and activated, with no value. `_name` is not used.
    pub fn new(device_type: DeviceType, _name: String, topic: String, counters: &mut DeviceCounters) -> (d: Device)
        ensures
            d@.device_id == device_id_for(device_type, old(counters).next_num(device_type) as nat),
            d@.device_type == device_type,
            d@.name == type_label(device_type),
            d@.topic == topic@,
            d@.connected,
            d@.activated,
            d@.value is None,
            final(counters).next_num(device_type) == old(counters).next_num(device_type).wrapping_add(1),
            forall|t: DeviceType| t != device_type ==> final(counters).next_num(t) == old(counters).next_num(t),
    {
        let name = type_label_string(device_type);
        let num = counters.get_num(device_type);
        let mut device_id = name.clone();
        device_id.append(" ");
        push_decimal(&mut device_id, num);
        proof { reveal_strlit(" "); }
        assert(device_id@ =~= device_id_for(device_type, num as nat));
        Device { device_id, device_type, name, connected: true, activated: true, value: None, topic }
    }

    /// Rebuilds a device from all of its fields, as they come out of a serialized form.
    pub fn restore(
        device_id: String,
        device_type: DeviceType,
        topic: String,
        name: String,
        connected: bool,
        activated: bool,
        value: Option<String>,
    ) -> (d: Device)
        ensures
            d.device_id == device_id,
            d.device_type == device_type,
            d.topic == topic,
            d.name == name,
            d.connected == connected,
            d.activated == activated,
            d.value == value,
    {
        Device { device_id, device_type, topic, name, connected, activated, value }
    }

    /// The device's id.
    pub fn get_id(&self) -> (r: &String)
        ensures
            r@ == self@.device_id,
    {
        &self.device_id
    }

    /// The device's name.
    pub fn get_name(&self) -> (r: &String)
        ensures
            r@ == self@.name,
    {
        &self.name
    }

    /// Whether the device is activated.
    pub fn get_activated(&self) -> (r: bool)
        ensures
            r == self.activated,
    {
        self.activated
    }

    /// Flips the activation; nothing else changes.
    pub fn toggle(&mut self)
        ensures
            final(self)@ == (DeviceView { activated: !old(self).activated, ..old(self)@ }),
    {
        match self.activated {
            true => self.activated = false,
            false => self.activated = true,
        }
    }

    /// Whether the device is connected.
    pub fn get_connection_status(&self) -> (r: bool)
        ensures
            r == self.connected,
    {
        self.connected
    }

    /// A copy of the device's last value, if it has one.
    pub fn get_value(&self) -> (r: Option<String>)
        ensures
            opt_text(r) == self@.value,
    {
        copy_opt_string(&self.value)
    }

    /// Replaces the device's value; nothing else changes.
    pub fn set_value(&mut self, value: Option<String>)
        ensures
            final(self)@ == (DeviceView { value: opt_text(value), ..old(self)@ }),
    {
        self.value = value;
    }

    /// A copy of the device with the same text in every field.
    pub fn duplicate(&self) -> (d: Device)
        ensures
            d@ == self@,
    {
        Device {
            device_id: self.device_id.clone(),
            device_type: self.device_type,
            topic: self.topic.clone(),
            name: self.name.clone(),
            connected: self.connected,
            activated: self.activated,
            value: copy_opt_string(&self.value),
        }
    }

    /// Takes over the type, name, connection, activation and value of `new_dev` when it
    /// has the same id; id and topic stay. A device with another id changes nothing.
    pub fn update(&mut self, new_dev: &Device)
        ensures
            final(self)@ == updated_view(old(self)@, new_dev@),
    {
        if new_dev.device_id == self.device_id {
            self.device_type = new_dev.device_type;
            self.name = new_dev.name.clone();
            self.connected = new_dev.connected;
            self.activated = new_dev.activated;
            self.value = copy_opt_string(&new_dev.value);
        }
    }

    /// Whether this device has the given id.
    pub fn has_id(&self, id: &String) -> (r: bool)
        ensures
            r == (self@.device_id == id@),
    {
        self.device_id == *id
    }
}

/// What `update` makes of device `d` given the device `n`.
pub open spec fn updated_view(d: DeviceView, n: DeviceView) -> DeviceView {
    if n.device_id == d.device_id {
        DeviceView {
            device_type: n.device_type,
            name: n.name,
            connected: n.connected,
            activated: n.activated,
            value: n.value,
            ..d
        }
    } else {
        d
    }
}

/// Toggling a device twice gives back the device it was.
pub proof fn toggle_twice(d: DeviceView)
    ensures
        (DeviceView { activated: !(DeviceView { activated: !d.activated, ..d }).activated, ..d }) == d,
{
}

/// The device with its activation flipped.
pub open spec fn toggled(d: DeviceView) -> DeviceView {
    DeviceView { activated: !d.activated, ..d }
}

/// The device after `k` toggles.
pub open spec fn toggled_times(d: DeviceView, k: nat) -> DeviceView
    decreases k,
{
    if k == 0 {
        d
    } else {
        toggled(toggled_times(d, (k - 1) as nat))
    }
}

/// After `k` toggles a device is activated exactly when it started activated and `k` is
/// even, or started deactivated and `k` is odd; nothing else about it changes. A device
/// fresh from `Device::new` is activated, so after `k` toggles it is activated exactly
/// when `k` is even.
pub proof fn toggle_parity(d: DeviceView, k: nat)
    ensures
        toggled_times(d, k).activated == (d.activated == (k % 2 == 0)),
        toggled_times(d, k) == (DeviceView { activated: toggled_times(d, k).activated, ..d }),
        d.activated ==> toggled_times(d, k).activated == (k % 2 == 0),
    decreases k,
{
    if k > 0 {
        toggle_parity(d, (k - 1) as nat);
    }
}

/// Updating a device a second time with the same device changes nothing more.
pub proof fn update_idempotent(d: DeviceView, n: DeviceView)
    ensures
        updated_view(updated_view(d, n), n) == updated_view(d, n),
{
}

impl PartialEq for Device {
    fn eq(&self, other: &Device) -> (r: bool) {
        self.device_id == other.device_id
    }
}

impl vstd::std_specs::cmp::PartialEqSpecImpl for Device {
    open spec fn obeys_eq_spec() -> bool {
        true
    }

    open spec fn eq_spec(&self, other: &Device) -> bool {
        self.device_id@ == other.device_id@
    }
}

impl Eq for Device {
}

impl PartialEq<String> for Device {
    fn eq(&self, other: &String) -> (r: bool) {
        self.device_id == *other
    }
}

impl vstd::std_specs::cmp::PartialEqSpecImpl<String> for Device {
    open spec fn obeys_eq_spec() -> bool {
        true
    }

    open spec fn eq_spec(&self, other: &String) -> bool {
        self.device_id@ == other@
    }
}

} // verus!
