use vstd::prelude::*;
use core::ops::Range;
use crate::automatisation::voice_recognition::ScenarioTypes;
use crate::container::{DeviceContainer, command_spec, locate_spec, toggle_matching, all_device_views, id_among, texts};
use crate::device::Device;
use crate::net::client::ws_msg::CommandType;
use crate::net::device_update::{MQTTUpdate, is_activation_update};
use crate::typedef::{DeviceId, ScenarioId};

verus! {

/// An automation scenario: something that has an id and a kind.
pub trait Scenario {
    fn get_id(&self) -> usize;

    fn get_type(&self) -> ScenarioTypes;
}

/// Toggles a set of devices once its time has come.
pub struct TimedToggle {
    pub s_id: usize,
    /// Seconds from the scenario's creation until it fires.
    pub time_to_trigger: u64,
    pub devices: Vec<DeviceId>,
}

/// Toggles a target device once a sensor's reading falls into a range.
pub struct ConditionalTrigger {
    pub s_id: usize,
    pub sensor_id: DeviceId,
    pub treshold: Range<i32>,
    pub tgt_dev: DeviceId,
}

/// A registered scenario of either kind.
pub enum ScenarioEntry {
    Timed(TimedToggle),
    Conditional(ConditionalTrigger),
}

/// The id of a registered scenario.
pub open spec fn entry_id(e: ScenarioEntry) -> usize {
    match e {
        ScenarioEntry::Timed(t) => t.s_id,
        ScenarioEntry::Conditional(c) => c.s_id,
    }
}

/// The kind of a registered scenario.
pub open spec fn entry_type(e: ScenarioEntry) -> ScenarioTypes {
    match e {
        ScenarioEntry::Timed(_) => ScenarioTypes::TIMED,
        ScenarioEntry::Conditional(_) => ScenarioTypes::SENSOR_CONDITIONAL,
    }
}

impl Scenario for TimedToggle {
    fn get_id(&self) -> (r: usize)
        ensures
            r == self.s_id,
    {
        self.s_id
    }

    fn get_type(&self) -> (r: ScenarioTypes)
        ensures
            r == ScenarioTypes::TIMED,
    {
        ScenarioTypes::TIMED
    }
}

impl Scenario for ConditionalTrigger {
    fn get_id(&self) -> (r: usize)
        ensures
            r == self.s_id,
    {
        self.s_id
    }

    fn get_type(&self) -> (r: ScenarioTypes)
        ensures
            r == ScenarioTypes::SENSOR_CONDITIONAL,
    {
        ScenarioTypes::SENSOR_CONDITIONAL
    }
}

impl Scenario for ScenarioEntry {
    fn get_id(&self) -> (r: usize)
        ensures
            r == entry_id(*self),
    {
        match self {
            ScenarioEntry::Timed(t) => t.get_id(),
            ScenarioEntry::Conditional(c) => c.get_id(),
        }
    }

    fn get_type(&self) -> (r: ScenarioTypes)
        ensures
            r == entry_type(*self),
    {
        match self {
            ScenarioEntry::Timed(t) => t.get_type(),
            ScenarioEntry::Conditional(c) => c.get_type(),
        }
    }
}

/// The registered scenarios and the counter from which their ids are drawn.
///
/// Drawing an id hands out the counter's value and advances it by one, wrapping at
/// `usize::MAX` as an atomic `fetch_add` does.
pub struct ScenarioRegistry {
    pub next_id: usize,
    pub scenarios: Vec<ScenarioEntry>,
}

/// Whether position `i` holds the first scenario with id `id`.
pub open spec fn is_first_scenario(s: Seq<ScenarioEntry>, id: usize, i: int) -> bool {
    &&& 0 <= i < s.len()
    &&& entry_id(s[i]) == id
    &&& forall|j: int| 0 <= j < i ==> entry_id(#[trigger] s[j]) != id
}

/// What removing scenario `id` does: the first scenario with that id leaves the list and
/// its kind is answered; without one, nothing changes.
pub open spec fn removal(s: Seq<ScenarioEntry>, id: usize) -> (Seq<ScenarioEntry>, Option<ScenarioTypes>) {
    if exists|i: int| is_first_scenario(s, id, i) {
        let i = choose|i: int| is_first_scenario(s, id, i);
        (s.remove(i), Some(entry_type(s[i])))
    } else {
        (s, None)
    }
}

/// Removing a scenario right after registering it under a fresh id gives back the list
/// as it was, and answers the scenario's kind.
pub proof fn remove_undoes_register(s: Seq<ScenarioEntry>, e: ScenarioEntry)
    requires
        forall|i: int| 0 <= i < s.len() ==> entry_id(#[trigger] s[i]) != entry_id(e),
    ensures
        removal(s.push(e), entry_id(e)) == (s, Some(entry_type(e))),
{
    let t = s.push(e);
    let n = s.len() as int;
    assert(is_first_scenario(t, entry_id(e), n)) by {
        assert forall|j: int| 0 <= j < n implies entry_id(#[trigger] t[j]) != entry_id(e) by {
            assert(t[j] == s[j]);
        }
    }
    let c = choose|i: int| is_first_scenario(t, entry_id(e), i);
    if c < n {
        assert(t[c] == s[c]);
    }
    assert(t.remove(n) =~= s);
}

impl ScenarioRegistry {
    /// No scenarios; ids start at zero.
    pub fn new() -> (r: ScenarioRegistry)
        ensures
            r.next_id == 0,
            r.scenarios@.len() == 0,
    {
        ScenarioRegistry { next_id: 0, scenarios: Vec::new() }
    }

    /// Draws the next id.
    fn draw_id(&mut self) -> (id: usize)
        ensures
            id == old(self).next_id,
            final(self).next_id == old(self).next_id.wrapping_add(1),
            final(self).scenarios == old(self).scenarios,
    {
        let id = self.next_id;
        self.next_id = id.wrapping_add(1);
        id
    }
}

impl TimedToggle {
    /// Registers a timed toggle of `devices`, firing `time_to_trigger` seconds from now,
    /// under the next id, and answers that id.
    pub fn new(time_to_trigger: u64, devices: Vec<DeviceId>, registry: &mut ScenarioRegistry) -> (id: ScenarioId)
        ensures
            id == old(registry).next_id,
            final(registry).next_id == old(registry).next_id.wrapping_add(1),
            final(registry).scenarios@ == old(registry).scenarios@.push(
                ScenarioEntry::Timed(TimedToggle { s_id: id, time_to_trigger, devices }),
            ),
    {
        let id = registry.draw_id();
        registry.scenarios.push(ScenarioEntry::Timed(TimedToggle { s_id: id, time_to_trigger, devices }));
        id
    }

    /// What firing scenario `s_id` does once its time has come: toggles every device whose
    /// id is among `devices` and answers each with the activation update to publish; when
    /// at least one device was toggled, the scenario is removed.
    pub fn start_toggle(
        devices: &Vec<DeviceId>,
        s_id: ScenarioId,
        container: &mut DeviceContainer,
        registry: &mut ScenarioRegistry,
    ) -> (r: (Vec<(Device, MQTTUpdate)>, Option<ScenarioTypes>))
        ensures
            final(container)@ == toggle_matching(old(container)@, texts(devices@)),
            r.0@.map_values(|p: (Device, MQTTUpdate)| p.0@) == all_device_views(final(container)@).filter(id_among(texts(devices@))),
            forall|k: int| 0 <= k < r.0@.len() ==> is_activation_update(#[trigger] r.0@[k].1, r.0@[k].0@.device_id, r.0@[k].0@.topic, r.0@[k].0@.activated),
            final(registry).next_id == old(registry).next_id,
            r.0@.len() > 0 ==> (final(registry).scenarios@, r.1) == removal(old(registry).scenarios@, s_id),
            r.0@.len() == 0 ==> final(registry).scenarios@ == old(registry).scenarios@ && r.1 is None,
    {
        let toggled = container.toggle_devices(devices);
        let removed = if toggled.len() > 0 {
            remove_scenario(registry, s_id)
        } else {
            None
        };
        (toggled, removed)
    }
}

/// How one look at a conditional trigger's sensor turned out.
pub enum WatchOutcome {
    /// The sensor is no longer registered; the scenario stops.
    SensorMissing,
    /// Nothing to do yet.
    Waiting,
    /// The reading was in range but the target device is no longer registered; the
    /// scenario stops.
    TargetMissing,
    /// The target was toggled; the update reports its new activation, and the kind of the
    /// removed scenario comes with it.
    Fired(MQTTUpdate, Option<ScenarioTypes>),
}

/// Whether a reading lies in the half-open range.
pub open spec fn in_threshold(t: Range<i32>, x: i32) -> bool {
    t.start <= x && x < t.end
}

/// The decimal value of a text made of digits.
pub open spec fn digits_value(s: Seq<char>) -> int
    decreases s.len(),
{
    if s.len() == 0 {
        0
    } else {
        digits_value(s.drop_last()) * 10 + (s.last() as int - '0' as int)
    }
}

/// Whether every character is an ASCII digit.
pub open spec fn all_digits(s: Seq<char>) -> bool {
    forall|i: int| 0 <= i < s.len() ==> '0' <= #[trigger] s[i] <= '9'
}

/// The `i32` a text stands for, as `str::parse::<i32>` reads it: an optional `+` or `-`
/// followed by at least one digit and nothing else, within the range of `i32`.
pub open spec fn i32_of_text(s: Seq<char>) -> Option<i32> {
    let neg = s.len() > 0 && s[0] == '-';
    let signed = s.len() > 0 && (s[0] == '-' || s[0] == '+');
    let body = if signed { s.drop_first() } else { s };
    let v = if neg { -digits_value(body) } else { digits_value(body) };
    if body.len() > 0 && all_digits(body) && i32::MIN <= v <= i32::MAX {
        Some(v as i32)
    } else {
        None
    }
}

proof fn lemma_digits_prefix(b: Seq<char>, m: int)
    requires
        all_digits(b),
        0 <= m <= b.len(),
    ensures
        0 <= digits_value(b.take(m)) <= digits_value(b),
    decreases b.len(),
{
    if m == b.len() {
        assert(b.take(m) =~= b);
        lemma_digits_nonneg(b);
    } else {
        let p = b.drop_last();
        assert(all_digits(p));
        assert(p.take(m) =~= b.take(m));
        lemma_digits_prefix(p, m);
        lemma_digits_nonneg(p);
    }
}

proof fn lemma_digits_nonneg(b: Seq<char>)
    requires
        all_digits(b),
    ensures
        digits_value(b) >= 0,
    decreases b.len(),
{
    if b.len() > 0 {
        let p = b.drop_last();
        assert(all_digits(p));
        lemma_digits_nonneg(p);
    }
}

/// Reads a text as an `i32` the way `str::parse::<i32>` does: an optional `+` or `-`
/// followed by at least one ASCII digit and nothing else, within the range of `i32`.
pub fn parse_i32(s: &str) -> (r: Option<i32>)
    ensures
        r == i32_of_text(s@),
{
    let n = s.unicode_len();
    if n == 0 {
        return None;
    }
    let first = s.get_char(0);
    let neg = first == '-';
    let start: usize = if first == '-' || first == '+' { 1 } else { 0 };
    let ghost body = s@.subrange(start as int, n as int);
    assert(body =~= (if start == 1 { s@.drop_first() } else { s@ }));
    if start >= n {
        return None;
    }
    let mut acc: i64 = 0;
    let mut i: usize = start;
    assert(s@.subrange(start as int, i as int) =~= Seq::<char>::empty());
    while i < n
        invariant
            start <= i <= n,
            n == s@.len(),
            n > 0,
            neg == (s@[0] == '-'),
            (start == 1) == (s@[0] == '-' || s@[0] == '+'),
            start <= 1,
            body == s@.subrange(start as int, n as int),
            body == (if start == 1 { s@.drop_first() } else { s@ }),
            all_digits(s@.subrange(start as int, i as int)),
            acc == digits_value(s@.subrange(start as int, i as int)),
            0 <= acc <= 0x8000_0000,
        decreases n - i,
    {
        let c = s.get_char(i);
        let cv = c as u32;
        if cv < 48 || cv > 57 {
            assert(body[i - start] == c);
            assert(!('0' <= body[i - start] <= '9'));
            return None;
        }
        let ghost prev = s@.subrange(start as int, i as int);
        let ghost next = s@.subrange(start as int, i + 1);
        assert(next.drop_last() =~= prev);
        assert(next.last() == c);
        acc = acc * 10 + (cv - 48) as i64;
        assert(all_digits(next)) by {
            assert forall|k: int| 0 <= k < next.len() implies '0' <= #[trigger] next[k] <= '9' by {
                if k < next.len() - 1 {
                    assert(next[k] == prev[k]);
                }
            }
        }
        i = i + 1;
        if acc > 0x8000_0000 {
            proof {
                if all_digits(body) {
                    assert(s@.subrange(start as int, i as int) =~= body.take(i - start));
                    lemma_digits_prefix(body, i - start);
                }
            }
            return None;
        }
    }
    assert(s@.subrange(start as int, i as int) =~= body);
    let value: i64 = if neg { -acc } else { acc };
    if value < -0x8000_0000 || value > 0x7fff_ffff {
        return None;
    }
    Some(value as i32)
}

/// The reading a sensor value stands for: the number it holds, or zero.
pub open spec fn reading_of(value: Seq<char>) -> i32 {
    match i32_of_text(value) {
        Some(n) => n,
        None => 0,
    }
}

impl ConditionalTrigger {
    /// Registers a trigger that toggles `tgt_dev` once the reading of `sensor_id` lies in
    /// `treshold`, under the next id, and answers that id.
    pub fn new(
        sensor_id: DeviceId,
        treshold: Range<i32>,
        tgt_dev: DeviceId,
        registry: &mut ScenarioRegistry,
    ) -> (r: Result<usize, &'static str>)
        ensures
            r == Ok::<usize, &'static str>(old(registry).next_id),
            final(registry).next_id == old(registry).next_id.wrapping_add(1),
            final(registry).scenarios@ == old(registry).scenarios@.push(
                ScenarioEntry::Conditional(ConditionalTrigger { s_id: old(registry).next_id, sensor_id, treshold, tgt_dev }),
            ),
    {
        let id = registry.draw_id();
        registry.scenarios.push(ScenarioEntry::Conditional(ConditionalTrigger { s_id: id, sensor_id, treshold, tgt_dev }));
        Ok(id)
    }

    /// What the trigger does with a reading: outside its range, nothing; inside, it toggles
    /// the first device with the target's id and removes the scenario, or stops when that
    /// device is gone.
    pub fn react(&self, container: &mut DeviceContainer, registry: &mut ScenarioRegistry, reading: i32) -> (r: WatchOutcome)
        ensures
            !in_threshold(self.treshold, reading) ==> r is Waiting && final(container)@ == old(container)@
                && *final(registry) == *old(registry),
            in_threshold(self.treshold, reading) ==> {
                let (v1, res) = command_spec(old(container)@, self.tgt_dev@, CommandType::TOGGLE);
                &&& final(container)@ == v1
                &&& match res {
                    Ok(nd) => r matches WatchOutcome::Fired(u, removed) && is_activation_update(u, self.tgt_dev@, nd.topic, nd.activated)
                        && final(registry).next_id == old(registry).next_id
                        && (final(registry).scenarios@, removed) == removal(old(registry).scenarios@, self.s_id),
                    Err(_) => r is TargetMissing && *final(registry) == *old(registry),
                }
            },
    {
        if self.treshold.start <= reading && reading < self.treshold.end {
            match container.apply_command(&self.tgt_dev, CommandType::TOGGLE) {
                Ok((_device, update)) => {
                    let removed = remove_scenario(registry, self.s_id);
                    WatchOutcome::Fired(update, removed)
                },
                Err(_) => WatchOutcome::TargetMissing,
            }
        } else {
            WatchOutcome::Waiting
        }
    }

    /// One look at the sensor: stops when it is gone, waits while it has no value, and
    /// otherwise reacts (see `react`) to the number its value holds, zero when it holds
    /// none.
    pub fn watch_tick(&self, container: &mut DeviceContainer, registry: &mut ScenarioRegistry) -> (r: WatchOutcome)
        ensures
            match locate_spec(old(container)@, self.sensor_id@) {
                None => r is SensorMissing && final(container)@ == old(container)@ && *final(registry) == *old(registry),
                Some((ti, di)) => match old(container)@[ti].1[di].value {
                    None => r is Waiting && final(container)@ == old(container)@ && *final(registry) == *old(registry),
                    Some(value) => {
                        let reading = reading_of(value);
                        &&& !in_threshold(self.treshold, reading) ==> r is Waiting && final(container)@ == old(container)@
                            && *final(registry) == *old(registry)
                        &&& in_threshold(self.treshold, reading) ==> {
                            let (v1, res) = command_spec(old(container)@, self.tgt_dev@, CommandType::TOGGLE);
                            &&& final(container)@ == v1
                            &&& match res {
                                Ok(nd) => r matches WatchOutcome::Fired(u, removed) && is_activation_update(u, self.tgt_dev@, nd.topic, nd.activated)
                                    && final(registry).next_id == old(registry).next_id
                                    && (final(registry).scenarios@, removed) == removal(old(registry).scenarios@, self.s_id),
                                Err(_) => r is TargetMissing && *final(registry) == *old(registry),
                            }
                        }
                    },
                },
            },
    {
        let reading = match container.find_device(&self.sensor_id) {
            None => { return WatchOutcome::SensorMissing; },
            Some(sensor) => match &sensor.value {
                None => { return WatchOutcome::Waiting; },
                Some(value) => match parse_i32(value.as_str()) {
                    Some(n) => n,
                    None => 0,
                },
            },
        };
        self.react(container, registry, reading)
    }
}

/// Removes the first scenario with id `s_id` and answers its kind, or answers `None` and
/// changes nothing when there is none.
pub fn remove_scenario(registry: &mut ScenarioRegistry, s_id: ScenarioId) -> (r: Option<ScenarioTypes>)
    ensures
        (final(registry).scenarios@, r) == removal(old(registry).scenarios@, s_id),
        final(registry).next_id == old(registry).next_id,
{
    let ghost s = registry.scenarios@;
    let mut i: usize = 0;
    while i < registry.scenarios.len()
        invariant
            i <= s.len(),
            registry.scenarios@ == s,
            registry.next_id == old(registry).next_id,
            s == old(registry).scenarios@,
            forall|j: int| 0 <= j < i ==> entry_id(#[trigger] s[j]) != s_id,
        decreases s.len() - i,
    {
        if registry.scenarios[i].get_id() == s_id {
            assert(is_first_scenario(s, s_id, i as int));
            let scenario = registry.scenarios.remove(i);
            let t = scenario.get_type();
            proof {
                let c = choose|k: int| is_first_scenario(s, s_id, k);
                if c < i { assert(entry_id(s[c]) != s_id); }
                if c > i { assert(entry_id(s[i as int]) != s_id); }
                assert(c == i);
            }
            return Some(t);
        }
        i = i + 1;
    }
    proof {
        if exists|k: int| is_first_scenario(s, s_id, k) {
            let k = choose|k: int| is_first_scenario(s, s_id, k);
            assert(entry_id(s[k]) != s_id);
        }
    }
    None
}

} // verus!
