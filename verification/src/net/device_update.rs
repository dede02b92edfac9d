use vstd::prelude::*;
use crate::device::Device;
use crate::net::client::ws_msg::CommandType;
use crate::text::{owned, json_quote, json_string_text};

verus! {

/// What an update message changes on a device.
#[allow(non_camel_case_types)]
#[derive(Clone, Copy, Debug, PartialEq, Eq, Structural)]
pub enum DeviceUpdateType {
    CONN_CHANGE,
    ACTIVATION_CHANGE,
    VALUE_CHANGE,
    ALL,
}

/// A JSON value carried in an update message, held by what the hub reads of it.
///
/// Numbers, arrays and objects are held by their compact JSON text.
#[derive(Debug)]
pub enum FieldValue {
    Null,
    Bool(bool),
    Text(String),
    Raw(String),
}

impl Clone for FieldValue {
    fn clone(&self) -> (r: FieldValue)
        ensures
            r == *self,
    {
        match self {
            FieldValue::Null => FieldValue::Null,
            FieldValue::Bool(b) => FieldValue::Bool(*b),
            FieldValue::Text(t) => FieldValue::Text(t.clone()),
            FieldValue::Raw(t) => FieldValue::Raw(t.clone()),
        }
    }
}

/// The text `b.to_string()` gives for a boolean.
pub open spec fn bool_text(b: bool) -> Seq<char> {
    if b { "true"@ } else { "false"@ }
}

/// `"true"` or `"false"`.
pub fn bool_string(b: bool) -> (s: String)
    ensures
        s@ == bool_text(b),
{
    if b { owned("true") } else { owned("false") }
}

/// The JSON text of a value, as `Value::to_string` writes it.
pub open spec fn field_json_text(v: FieldValue) -> Seq<char> {
    match v {
        FieldValue::Null => "null"@,
        FieldValue::Bool(b) => bool_text(b),
        FieldValue::Text(s) => json_string_text(s@),
        FieldValue::Raw(t) => t@,
    }
}

impl FieldValue {
    /// The boolean held, as `Value::as_bool` gives it: only a JSON boolean has one.
    pub fn as_bool(&self) -> (r: Option<bool>)
        ensures
            r == (match *self {
                FieldValue::Bool(b) => Some(b),
                _ => None,
            }),
    {
        match self {
            FieldValue::Bool(b) => Some(*b),
            _ => None,
        }
    }

    /// The compact JSON text of the value.
    pub fn to_json_text(&self) -> (s: String)
        ensures
            s@ == field_json_text(*self),
    {
        match self {
            FieldValue::Null => owned("null"),
            FieldValue::Bool(b) => bool_string(*b),
            FieldValue::Text(t) => json_quote(t.as_str()),
            FieldValue::Raw(t) => t.clone(),
        }
    }
}

/// The map that a list of entries stands for, later entries taking precedence.
pub open spec fn entries_map(s: Seq<(String, FieldValue)>) -> Map<Seq<char>, FieldValue>
    decreases s.len(),
{
    if s.len() == 0 {
        Map::empty()
    } else {
        entries_map(s.drop_last()).insert(s.last().0@, s.last().1)
    }
}

/// No key occurs twice.
pub open spec fn keys_distinct(s: Seq<(String, FieldValue)>) -> bool {
    forall|i: int, j: int| 0 <= i < s.len() && 0 <= j < s.len() && i != j ==> s[i].0@ != s[j].0@
}

proof fn lemma_entries_map(s: Seq<(String, FieldValue)>)
    requires
        keys_distinct(s),
    ensures
        forall|k: Seq<char>| entries_map(s).dom().contains(k) <==> exists|i: int| 0 <= i < s.len() && s[i].0@ == k,
        forall|i: int| 0 <= i < s.len() ==> #[trigger] entries_map(s)[s[i].0@] == s[i].1,
        entries_map(s).dom().finite(),
        entries_map(s).dom().len() == s.len(),
    decreases s.len(),
{
    if s.len() > 0 {
        let p = s.drop_last();
        assert(keys_distinct(p));
        lemma_entries_map(p);
        let k = s.last().0@;
        assert forall|kk: Seq<char>| entries_map(s).dom().contains(kk) <==> exists|i: int| 0 <= i < s.len() && s[i].0@ == kk by {
            if entries_map(s).dom().contains(kk) {
                if kk == k {
                    assert(s[s.len() - 1].0@ == kk);
                } else {
                    let i = choose|i: int| 0 <= i < p.len() && p[i].0@ == kk;
                    assert(s[i].0@ == kk);
                }
            }
            if exists|i: int| 0 <= i < s.len() && s[i].0@ == kk {
                let i = choose|i: int| 0 <= i < s.len() && s[i].0@ == kk;
                if i < s.len() - 1 {
                    assert(p[i].0@ == kk);
                }
            }
        }
        assert(!entries_map(p).dom().contains(k)) by {
            if entries_map(p).dom().contains(k) {
                let i = choose|i: int| 0 <= i < p.len() && p[i].0@ == k;
                assert(s[i].0@ == s[s.len() - 1].0@);
            }
        }
        assert forall|i: int| 0 <= i < s.len() implies #[trigger] entries_map(s)[s[i].0@] == s[i].1 by {
            if i < s.len() - 1 {
                assert(p[i] == s[i]);
                assert(s[i].0@ != k);
            }
        }
    }
}

/// Field name to value, each name at most once: what an update message carries.
pub struct FieldMap {
    entries: Vec<(String, FieldValue)>,
}

impl View for FieldMap {
    type V = Map<Seq<char>, FieldValue>;

    closed spec fn view(&self) -> Map<Seq<char>, FieldValue> {
        entries_map(self.entries@)
    }
}

impl FieldMap {
    /// The field names in the order they were first put.
    pub closed spec fn keys(&self) -> Seq<Seq<char>> {
        self.entries@.map_values(|e: (String, FieldValue)| e.0@)
    }

    #[verifier::type_invariant]
    closed spec fn wf(&self) -> bool {
        keys_distinct(self.entries@)
    }

    /// The empty map.
    pub fn new() -> (m: FieldMap)
        ensures
            m@ == Map::<Seq<char>, FieldValue>::empty(),
            m.keys() == Seq::<Seq<char>>::empty(),
    {
        let m = FieldMap { entries: Vec::new() };
        assert(m.keys() =~= Seq::<Seq<char>>::empty());
        m
    }

    fn find(&self, key: &str) -> (r: Option<usize>)
        ensures
            match r {
                Some(i) => i < self.entries@.len() && self.entries@[i as int].0@ == key@,
                None => forall|i: int| 0 <= i < self.entries@.len() ==> self.entries@[i].0@ != key@,
            },
    {
        let mut i: usize = 0;
        while i < self.entries.len()
            invariant
                i <= self.entries@.len(),
                forall|j: int| 0 <= j < i ==> self.entries@[j].0@ != key@,
            decreases self.entries@.len() - i,
        {
            if self.entries[i].0.as_str().to_owned() == key.to_owned() {
                return Some(i);
            }
            i = i + 1;
        }
        None
    }

    /// The value under `key`, if there is one.
    pub fn get(&self, key: &str) -> (r: Option<&FieldValue>)
        ensures
            r == (if self@.dom().contains(key@) { Some(&self@[key@]) } else { None::<&FieldValue> }),
    {
        proof {
            use_type_invariant(self);
            lemma_entries_map(self.entries@);
        }
        match self.find(key) {
            Some(i) => Some(&self.entries[i].1),
            None => None,
        }
    }

    /// Puts `value` under `key`, replacing and returning what was there before.
    pub fn insert(&mut self, key: String, value: FieldValue) -> (r: Option<FieldValue>)
        ensures
            final(self)@ == old(self)@.insert(key@, value),
            r == (if old(self)@.dom().contains(key@) { Some(old(self)@[key@]) } else { None::<FieldValue> }),
            old(self)@.dom().contains(key@) ==> final(self).keys() == old(self).keys(),
            !old(self)@.dom().contains(key@) ==> final(self).keys() == old(self).keys().push(key@),
    {
        proof {
            use_type_invariant(&*self);
            lemma_entries_map(self.entries@);
        }
        let ghost old_entries = self.entries@;
        match self.find(key.as_str()) {
            Some(i) => {
                let mut entries = Vec::new();
                std::mem::swap(&mut entries, &mut self.entries);
                let (_old_key, old_value) = entries.remove(i);
                entries.insert(i, (key, value));
                proof {
                    assert(entries@ =~= old_entries.update(i as int, (key, value)));
                    assert(keys_distinct(entries@));
                    lemma_entries_map(entries@);
                    assert(entries_map(entries@) =~= entries_map(old_entries).insert(key@, value)) by {
                        assert forall|k: Seq<char>| #[trigger] entries_map(entries@).dom().contains(k)
                            <==> entries_map(old_entries).insert(key@, value).dom().contains(k) by {
                            if exists|j: int| 0 <= j < entries@.len() && entries@[j].0@ == k {
                                let j = choose|j: int| 0 <= j < entries@.len() && entries@[j].0@ == k;
                                if j != i {
                                    assert(old_entries[j].0@ == k);
                                }
                            }
                            if exists|j: int| 0 <= j < old_entries.len() && old_entries[j].0@ == k {
                                let j = choose|j: int| 0 <= j < old_entries.len() && old_entries[j].0@ == k;
                                assert(entries@[j].0@ == k);
                            }
                        }
                        assert forall|k: Seq<char>| #[trigger] entries_map(entries@).dom().contains(k)
                            implies entries_map(entries@)[k] == entries_map(old_entries).insert(key@, value)[k] by {
                            let j = choose|j: int| 0 <= j < entries@.len() && entries@[j].0@ == k;
                            assert(entries_map(entries@)[entries@[j].0@] == entries@[j].1);
                            if j != i {
                                assert(entries_map(old_entries)[old_entries[j].0@] == old_entries[j].1);
                            }
                        }
                    }
                    assert(entries_map(old_entries)[old_entries[i as int].0@] == old_entries[i as int].1);
                }
                self.entries = entries;
                assert(self.keys() =~= old_entries.map_values(|e: (String, FieldValue)| e.0@));
                Some(old_value)
            },
            None => {
                let mut entries = Vec::new();
                std::mem::swap(&mut entries, &mut self.entries);
                entries.push((key, value));
                proof {
                    assert(entries@.drop_last() =~= old_entries);
                    assert(keys_distinct(entries@));
                }
                self.entries = entries;
                assert(self.keys() =~= old_entries.map_values(|e: (String, FieldValue)| e.0@).push(key@));
                None
            },
        }
    }

    /// The number of fields; the field names in order hold each name of the map once.
    pub fn len(&self) -> (n: usize)
        ensures
            n == self@.dom().len(),
            n == self.keys().len(),
            self.keys().no_duplicates(),
            self.keys().to_set() == self@.dom(),
    {
        proof {
            use_type_invariant(self);
            lemma_entries_map(self.entries@);
            let k = self.keys();
            assert forall|a: int, b: int| 0 <= a < k.len() && 0 <= b < k.len() && a != b implies k[a] != k[b] by {}
            assert forall|x: Seq<char>| k.to_set().contains(x) <==> self@.dom().contains(x) by {
                if self@.dom().contains(x) {
                    let i = choose|i: int| 0 <= i < self.entries@.len() && self.entries@[i].0@ == x;
                    assert(k[i] == x);
                }
            }
            assert(k.to_set() =~= self@.dom());
        }
        self.entries.len()
    }

    /// The `i`-th field in the order the names were first put.
    pub fn entry(&self, i: usize) -> (r: (&String, &FieldValue))
        requires
            i < self@.dom().len(),
        ensures
            r.0@ == self.keys()[i as int],
            self@.dom().contains(r.0@),
            self@[r.0@] == *r.1,
    {
        proof {
            use_type_invariant(self);
            lemma_entries_map(self.entries@);
        }
        (&self.entries[i].0, &self.entries[i].1)
    }
}

/// Reading a field right after putting it gives the value put; other fields keep theirs.
pub proof fn field_read_after_write(m: Map<Seq<char>, FieldValue>, k: Seq<char>, v: FieldValue, other: Seq<char>)
    requires
        other != k,
    ensures
        m.insert(k, v).dom().contains(k),
        m.insert(k, v)[k] == v,
        m.insert(k, v).dom().contains(other) == m.dom().contains(other),
        m.dom().contains(other) ==> m.insert(k, v)[other] == m[other],
{
}

/// Whether the hub is online; published on the `root_online` topic.
pub struct MQTTStatus {
    pub connected: bool,
}

/// An update of one device, sent or received over MQTT.
pub struct MQTTUpdate {
    pub update_type: DeviceUpdateType,
    pub device_id: String,
    pub topic: String,
    pub update_fields: FieldMap,
}

/// Whether `u` reports that the device `id` on `topic` is now activated or not: an
/// activation change whose only field, `activated`, holds the text `"true"` or `"false"`.
pub open spec fn is_activation_update(u: MQTTUpdate, id: Seq<char>, topic: Seq<char>, activated: bool) -> bool {
    &&& u.update_type == DeviceUpdateType::ACTIVATION_CHANGE
    &&& u.device_id@ == id
    &&& u.topic@ == topic
    &&& u.update_fields@.dom() == set!["activated"@]
    &&& u.update_fields@["activated"@] matches FieldValue::Text(t) && t@ == bool_text(activated)
}

impl MQTTUpdate {
    /// The activation change that reports a device's new activation: its id and topic,
    /// and one field `activated` holding the text `"true"` or `"false"`.
    pub fn activation(device_id: String, topic: String, activated: bool) -> (u: MQTTUpdate)
        ensures
            is_activation_update(u, device_id@, topic@, activated),
            u.device_id == device_id,
            u.topic == topic,
    {
        let mut map = FieldMap::new();
        let _ = map.insert(owned("activated"), FieldValue::Text(bool_string(activated)));
        assert(map@.dom() =~= set!["activated"@]);
        MQTTUpdate { update_type: DeviceUpdateType::ACTIVATION_CHANGE, device_id, topic, update_fields: map }
    }
}

/// A command for one device.
pub struct MQTTCommand {
    pub device_id: String,
    pub command: CommandType,
}

/// A list of devices announced on the `add_device` topic.
pub struct MQTTList {
    pub device_list: Option<Vec<Device>>,
}

impl MQTTList {
    /// The list message for `device_list`: no list at all when it is empty.
    pub fn new(device_list: Vec<Device>) -> (m: MQTTList)
        ensures
            device_list@.len() == 0 ==> m.device_list is None,
            device_list@.len() != 0 ==> m.device_list == Some(device_list),
    {
        if device_list.is_empty() {
            MQTTList { device_list: None }
        } else {
            MQTTList { device_list: Some(device_list) }
        }
    }
}

} // verus!
