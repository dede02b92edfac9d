use vstd::prelude::*;
use crate::device::{Device, DeviceView, updated_view};
use crate::net::client::ws_msg::CommandType;
use crate::net::device_update::{DeviceUpdateType, FieldValue, MQTTList, MQTTUpdate, field_json_text, is_activation_update};
use crate::text::owned;

verus! {

/// A topic with the views of the devices under it, in the order they were added.
pub type TopicView = (Seq<char>, Seq<DeviceView>);

/// Whether some entry is for topic `t`.
pub open spec fn has_topic(v: Seq<TopicView>, t: Seq<char>) -> bool {
    exists|i: int| 0 <= i < v.len() && v[i].0 == t
}

/// The position of the entry for topic `t` (meaningful when there is one).
pub open spec fn topic_index(v: Seq<TopicView>, t: Seq<char>) -> int {
    choose|i: int| 0 <= i < v.len() && v[i].0 == t
}

/// Whether some device has id `id`.
pub open spec fn has_device(ds: Seq<DeviceView>, id: Seq<char>) -> bool {
    exists|i: int| 0 <= i < ds.len() && ds[i].device_id == id
}

/// The position of the device with id `id` (meaningful when there is one).
pub open spec fn device_index(ds: Seq<DeviceView>, id: Seq<char>) -> int {
    choose|i: int| 0 <= i < ds.len() && ds[i].device_id == id
}

/// No topic has two entries.
pub open spec fn topics_distinct(v: Seq<TopicView>) -> bool {
    forall|i: int, j: int| 0 <= i < v.len() && 0 <= j < v.len() && i != j ==> v[i].0 != v[j].0
}

/// No two devices share an id.
pub open spec fn ids_distinct(ds: Seq<DeviceView>) -> bool {
    forall|i: int, j: int| 0 <= i < ds.len() && 0 <= j < ds.len() && i != j ==> ds[i].device_id != ds[j].device_id
}

fn contains_text(ids: &Vec<String>, id: &String) -> (r: bool)
    ensures
        r == texts(ids@).contains(id@),
{
    let mut j: usize = 0;
    while j < ids.len()
        invariant
            j <= ids@.len(),
            forall|k: int| 0 <= k < j ==> ids@[k]@ != id@,
        decreases ids@.len() - j,
    {
        if ids[j] == *id {
            assert(texts(ids@)[j as int] == id@);
            return true;
        }
        j = j + 1;
    }
    assert forall|k: int| 0 <= k < texts(ids@).len() implies texts(ids@)[k] != id@ by {}
    false
}

/// The registry's invariant: topics are distinct, and within a topic device ids are.
pub open spec fn container_wf(v: Seq<TopicView>) -> bool {
    &&& topics_distinct(v)
    &&& forall|i: int| 0 <= i < v.len() ==> ids_distinct(#[trigger] v[i].1)
}

/// The registry with the device at position `di` of topic entry `ti` replaced by `d`.
pub open spec fn set_device(v: Seq<TopicView>, ti: int, di: int, d: DeviceView) -> Seq<TopicView> {
    v.update(ti, (v[ti].0, v[ti].1.update(di, d)))
}

/// What adding device `x` makes of the registry: a device with the same id under its
/// topic takes over `x`'s type, name, connection, activation and value; otherwise `x`
/// joins its topic's devices, and a topic seen for the first time gets an entry of its own.
pub open spec fn upsert_spec(v: Seq<TopicView>, x: DeviceView) -> Seq<TopicView> {
    if has_topic(v, x.topic) {
        let ti = topic_index(v, x.topic);
        if has_device(v[ti].1, x.device_id) {
            let di = device_index(v[ti].1, x.device_id);
            set_device(v, ti, di, updated_view(v[ti].1[di], x))
        } else {
            v.update(ti, (v[ti].0, v[ti].1.push(x)))
        }
    } else {
        v.push((x.topic, seq![x]))
    }
}

/// What adding the devices `xs` one after the other makes of the registry.
pub open spec fn upsert_all(v: Seq<TopicView>, xs: Seq<DeviceView>) -> Seq<TopicView>
    decreases xs.len(),
{
    if xs.len() == 0 {
        v
    } else {
        upsert_spec(upsert_all(v, xs.drop_last()), xs.last())
    }
}

/// Every device of the registry, topic by topic.
pub open spec fn all_device_views(v: Seq<TopicView>) -> Seq<DeviceView>
    decreases v.len(),
{
    if v.len() == 0 {
        Seq::empty()
    } else {
        all_device_views(v.drop_last()) + v.last().1
    }
}


/// Where the first device with id `id` stands, topics taken in order: the position of its
/// topic entry and its position there.
pub open spec fn locate_spec(v: Seq<TopicView>, id: Seq<char>) -> Option<(int, int)>
    decreases v.len(),
{
    if v.len() == 0 {
        None
    } else {
        match locate_spec(v.drop_last(), id) {
            Some(p) => Some(p),
            None => if has_device(v.last().1, id) {
                Some(((v.len() - 1) as int, device_index(v.last().1, id)))
            } else {
                None
            },
        }
    }
}

proof fn lemma_locate_prefix(v: Seq<TopicView>, id: Seq<char>, k: int)
    requires
        0 <= k <= v.len(),
        locate_spec(v.take(k), id) is Some,
    ensures
        locate_spec(v, id) == locate_spec(v.take(k), id),
    decreases v.len(),
{
    if k == v.len() {
        assert(v.take(k) =~= v);
    } else {
        assert(v.drop_last().take(k) =~= v.take(k));
        lemma_locate_prefix(v.drop_last(), id, k);
    }
}

proof fn lemma_locate_valid(v: Seq<TopicView>, id: Seq<char>)
    ensures
        match locate_spec(v, id) {
            Some((ti, di)) => 0 <= ti < v.len() && has_device(v[ti].1, id) && di == device_index(v[ti].1, id),
            None => forall|ti: int| 0 <= ti < v.len() ==> !has_device(#[trigger] v[ti].1, id),
        },
    decreases v.len(),
{
    if v.len() > 0 {
        lemma_locate_valid(v.drop_last(), id);
        assert forall|ti: int| 0 <= ti < v.len() - 1 implies v.drop_last()[ti] == v[ti] by {}
    }
}

/// Why an update could not be applied.
#[derive(Clone, Copy, Debug, PartialEq, Eq, Structural)]
pub enum UpdateError {
    /// No device is registered under the update's topic.
    TopicNotFound,
    /// The topic has no device with the update's id.
    DeviceNotFound,
    /// The field that the update kind reads is missing.
    MissingField,
    /// The field that the update kind reads holds no boolean.
    NotABoolean,
    /// The update kind is not one that changes a device.
    UnsupportedUpdate,
}

/// What an update of the given kind and fields makes of device `d`. A connection change
/// and an activation change both read the boolean field `connected`; a value change
/// stores the JSON text of the field `value`.
pub open spec fn update_outcome(d: DeviceView, t: DeviceUpdateType, f: Map<Seq<char>, FieldValue>) -> Result<DeviceView, UpdateError> {
    match t {
        DeviceUpdateType::CONN_CHANGE => if !f.dom().contains("connected"@) {
            Err(UpdateError::MissingField)
        } else {
            match f["connected"@] {
                FieldValue::Bool(b) => Ok(DeviceView { connected: b, ..d }),
                _ => Err(UpdateError::NotABoolean),
            }
        },
        DeviceUpdateType::ACTIVATION_CHANGE => if !f.dom().contains("connected"@) {
            Err(UpdateError::MissingField)
        } else {
            match f["connected"@] {
                FieldValue::Bool(b) => Ok(DeviceView { activated: b, ..d }),
                _ => Err(UpdateError::NotABoolean),
            }
        },
        DeviceUpdateType::VALUE_CHANGE => if !f.dom().contains("value"@) {
            Err(UpdateError::MissingField)
        } else {
            Ok(DeviceView { value: Some(field_json_text(f["value"@])), ..d })
        },
        DeviceUpdateType::ALL => Err(UpdateError::UnsupportedUpdate),
    }
}

/// What an update of device `id` under `topic` does to the registry and answers.
pub open spec fn update_device_spec(
    v: Seq<TopicView>,
    topic: Seq<char>,
    id: Seq<char>,
    t: DeviceUpdateType,
    f: Map<Seq<char>, FieldValue>,
) -> (Seq<TopicView>, Result<DeviceView, UpdateError>) {
    if !has_topic(v, topic) {
        (v, Err(UpdateError::TopicNotFound))
    } else {
        let ti = topic_index(v, topic);
        if !has_device(v[ti].1, id) {
            (v, Err(UpdateError::DeviceNotFound))
        } else {
            let di = device_index(v[ti].1, id);
            match update_outcome(v[ti].1[di], t, f) {
                Ok(nd) => (set_device(v, ti, di, nd), Ok(nd)),
                Err(e) => (v, Err(e)),
            }
        }
    }
}

/// The view of a result that carries a device.
pub open spec fn device_result_view<E>(r: Result<Device, E>) -> Result<DeviceView, E> {
    match r {
        Ok(d) => Ok(d@),
        Err(e) => Err(e),
    }
}

/// Why a client command could not be applied.
#[derive(Clone, Copy, Debug, PartialEq, Eq, Structural)]
pub enum CommandError {
    /// No device has the command's id.
    DeviceNotFound,
    /// The command is not one the hub knows.
    UnknownCommand,
}

/// The activation a command gives device `d`, if the command is known.
pub open spec fn command_activation(d: DeviceView, c: CommandType) -> Option<bool> {
    match c {
        CommandType::TOGGLE => Some(!d.activated),
        CommandType::ENABLE => Some(true),
        CommandType::DISABLE => Some(false),
        CommandType::UNKNOWN => None,
    }
}

/// What a command for the first device with id `id` does to the registry and answers:
/// the commanded device with its new activation.
pub open spec fn command_spec(v: Seq<TopicView>, id: Seq<char>, c: CommandType) -> (Seq<TopicView>, Result<DeviceView, CommandError>) {
    match locate_spec(v, id) {
        None => (v, Err(CommandError::DeviceNotFound)),
        Some((ti, di)) => match command_activation(v[ti].1[di], c) {
            None => (v, Err(CommandError::UnknownCommand)),
            Some(a) => {
                let nd = DeviceView { activated: a, ..v[ti].1[di] };
                (set_device(v, ti, di, nd), Ok(nd))
            },
        },
    }
}

/// What a client's replacement device `x` does: its topic gets an entry if it had none,
/// and the device with its id there, if any, takes over its fields as `Device::update`
/// does. The answer says whether such a device was there.
pub open spec fn replace_spec(v: Seq<TopicView>, x: DeviceView) -> (Seq<TopicView>, bool) {
    let v1 = if has_topic(v, x.topic) { v } else { v.push((x.topic, Seq::<DeviceView>::empty())) };
    let ti = topic_index(v1, x.topic);
    if has_device(v1[ti].1, x.device_id) {
        let di = device_index(v1[ti].1, x.device_id);
        (set_device(v1, ti, di, updated_view(v1[ti].1[di], x)), true)
    } else {
        (v1, false)
    }
}

/// Why a value could not be read.
#[derive(Clone, Copy, Debug, PartialEq, Eq, Structural)]
pub enum ValueError {
    /// No device is registered under the topic.
    TopicNotFound,
    /// The topic has no device with the id.
    DeviceNotFound,
}

/// The value of device `id` under `topic` as it is reported: its id and its value, or
/// `null` when it has none.
pub open spec fn value_spec(v: Seq<TopicView>, topic: Seq<char>, id: Seq<char>) -> Result<(Seq<char>, Seq<char>), ValueError> {
    if !has_topic(v, topic) {
        Err(ValueError::TopicNotFound)
    } else {
        let ti = topic_index(v, topic);
        if !has_device(v[ti].1, id) {
            Err(ValueError::DeviceNotFound)
        } else {
            Ok(reported_value(v[ti].1[device_index(v[ti].1, id)]))
        }
    }
}

/// Device `d`, toggled when its id is among `ids`.
pub open spec fn toggle_if(d: DeviceView, ids: Seq<Seq<char>>) -> DeviceView {
    if ids.contains(d.device_id) { DeviceView { activated: !d.activated, ..d } } else { d }
}

/// The devices of a topic with those whose id is among `ids` toggled.
pub open spec fn toggle_topic(t: TopicView, ids: Seq<Seq<char>>) -> TopicView {
    (t.0, t.1.map_values(|d: DeviceView| toggle_if(d, ids)))
}

/// The registry with every device whose id is among `ids` toggled.
pub open spec fn toggle_matching(v: Seq<TopicView>, ids: Seq<Seq<char>>) -> Seq<TopicView> {
    v.map_values(|t: TopicView| toggle_topic(t, ids))
}

/// Whether a device's id is among `ids`.
pub open spec fn id_among(ids: Seq<Seq<char>>) -> spec_fn(DeviceView) -> bool {
    |d: DeviceView| ids.contains(d.device_id)
}

/// The text of each string.
pub open spec fn texts(v: Seq<String>) -> Seq<Seq<char>> {
    v.map_values(|s: String| s@)
}


proof fn lemma_upsert_wf(v: Seq<TopicView>, x: DeviceView)
    requires
        container_wf(v),
    ensures
        container_wf(upsert_spec(v, x)),
{
    let w = upsert_spec(v, x);
    if has_topic(v, x.topic) {
        let ti = topic_index(v, x.topic);
        assert forall|i: int| 0 <= i < w.len() implies ids_distinct(#[trigger] w[i].1) by {
            if i == ti {
                assert(ids_distinct(v[ti].1));
            }
        }
    }
}

/// The id and value that reading a device under a topic reports.
pub open spec fn reported_value(d: DeviceView) -> (Seq<char>, Seq<char>) {
    (d.device_id, match d.value { Some(t) => t, None => "null"@ })
}

/// After device `x` is added, its topic holds a device with its id that carries its type,
/// name, connection, activation and value, and reading that device's value gives `x`'s.
pub proof fn upsert_then_read(v: Seq<TopicView>, x: DeviceView)
    requires
        container_wf(v),
    ensures
        ({
            let w = upsert_spec(v, x);
            let ti = topic_index(w, x.topic);
            let d = w[ti].1[device_index(w[ti].1, x.device_id)];
            &&& has_topic(w, x.topic)
            &&& has_device(w[ti].1, x.device_id)
            &&& d.device_id == x.device_id
            &&& d.device_type == x.device_type
            &&& d.name == x.name
            &&& d.connected == x.connected
            &&& d.activated == x.activated
            &&& d.value == x.value
            &&& value_spec(w, x.topic, x.device_id) == Ok::<(Seq<char>, Seq<char>), ValueError>(reported_value(x))
        }),
{
    lemma_upsert_wf(v, x);
    let w = upsert_spec(v, x);
    if has_topic(v, x.topic) {
        let ti = topic_index(v, x.topic);
        assert(w[ti].0 == x.topic);
        assert(topic_index(w, x.topic) == ti);
        if has_device(v[ti].1, x.device_id) {
            let di = device_index(v[ti].1, x.device_id);
            assert(w[ti].1[di].device_id == x.device_id);
            assert(device_index(w[ti].1, x.device_id) == di);
        } else {
            let di = v[ti].1.len() as int;
            assert(w[ti].1[di] == x);
            assert(device_index(w[ti].1, x.device_id) == di);
        }
    } else {
        let ti = v.len() as int;
        assert(w[ti].0 == x.topic);
        assert(topic_index(w, x.topic) == ti);
        assert(w[ti].1[0] == x);
        assert(device_index(w[ti].1, x.device_id) == 0);
    }
}

/// Adding the same device twice leaves the registry as adding it once.
pub proof fn upsert_idempotent(v: Seq<TopicView>, x: DeviceView)
    requires
        container_wf(v),
    ensures
        upsert_spec(upsert_spec(v, x), x) == upsert_spec(v, x),
{
    upsert_then_read(v, x);
    let w = upsert_spec(v, x);
    let ti = topic_index(w, x.topic);
    let di = device_index(w[ti].1, x.device_id);
    let d = w[ti].1[di];
    assert(updated_view(d, x) == d);
    assert(w[ti].1.update(di, d) =~= w[ti].1);
    assert(set_device(w, ti, di, d) =~= w);
}

proof fn lemma_locate_same_ids(v: Seq<TopicView>, w: Seq<TopicView>, id: Seq<char>)
    requires
        container_wf(v),
        container_wf(w),
        v.len() == w.len(),
        forall|i: int| 0 <= i < v.len() ==> (#[trigger] v[i]).1.len() == w[i].1.len(),
        forall|i: int, j: int| 0 <= i < v.len() && 0 <= j < v[i].1.len() ==> (#[trigger] v[i].1[j]).device_id == w[i].1[j].device_id,
    ensures
        locate_spec(v, id) == locate_spec(w, id),
    decreases v.len(),
{
    if v.len() > 0 {
        let vp = v.drop_last();
        let wp = w.drop_last();
        assert forall|i: int| 0 <= i < vp.len() implies ids_distinct(#[trigger] vp[i].1) by {
            assert(ids_distinct(v[i].1));
        }
        assert forall|i: int| 0 <= i < wp.len() implies ids_distinct(#[trigger] wp[i].1) by {
            assert(ids_distinct(w[i].1));
        }
        assert forall|i: int| 0 <= i < vp.len() implies (#[trigger] vp[i]).1.len() == wp[i].1.len() by {
            assert(v[i].1.len() == w[i].1.len());
        }
        assert forall|i: int, j: int| 0 <= i < vp.len() && 0 <= j < vp[i].1.len() implies (#[trigger] vp[i].1[j]).device_id == wp[i].1[j].device_id by {
            assert(v[i].1[j].device_id == w[i].1[j].device_id);
        }
        lemma_locate_same_ids(vp, wp, id);
        let k = v.len() - 1;
        let a = v[k].1;
        let b = w[k].1;
        assert(ids_distinct(a));
        assert(ids_distinct(b));
        if has_device(a, id) {
            let i = device_index(a, id);
            assert(a[i].device_id == b[i].device_id);
            assert(has_device(b, id));
            assert(device_index(b, id) == i);
        }
        if has_device(b, id) {
            let i = device_index(b, id);
            assert(a[i].device_id == b[i].device_id);
            assert(has_device(a, id));
        }
    }
}

/// Toggling the same device twice by command gives back the registry it was.
pub proof fn toggle_command_twice(v: Seq<TopicView>, id: Seq<char>)
    requires
        container_wf(v),
    ensures
        command_spec(command_spec(v, id, CommandType::TOGGLE).0, id, CommandType::TOGGLE).0 == v,
{
    lemma_locate_valid(v, id);
    match locate_spec(v, id) {
        None => {},
        Some((ti, di)) => {
            let d = v[ti].1[di];
            let nd = DeviceView { activated: !d.activated, ..d };
            let v1 = set_device(v, ti, di, nd);
            assert(0 <= di < v[ti].1.len()) by {
                assert(v[ti].1[device_index(v[ti].1, id)].device_id == id);
            }
            assert(container_wf(v1)) by {
                assert forall|i: int| 0 <= i < v1.len() implies ids_distinct(#[trigger] v1[i].1) by {
                    if i == ti { assert(ids_distinct(v[ti].1)); }
                }
            }
            lemma_locate_same_ids(v, v1, id);
            assert(v1[ti].1[di] == nd);
            let nnd = DeviceView { activated: !nd.activated, ..nd };
            assert(nnd == d);
            assert(v1[ti].1.update(di, nnd) =~= v[ti].1);
            assert(set_device(v1, ti, di, nnd) =~= v);
        },
    }
}

/// A refused update leaves the registry as it was; an accepted one changes only the
/// updated device, and keeps its id and topic.
pub proof fn update_changes_one_device(
    v: Seq<TopicView>,
    topic: Seq<char>,
    id: Seq<char>,
    t: DeviceUpdateType,
    f: Map<Seq<char>, FieldValue>,
)
    ensures
        update_device_spec(v, topic, id, t, f).1 is Err ==> update_device_spec(v, topic, id, t, f).0 == v,
        update_device_spec(v, topic, id, t, f).1 matches Ok(nd) ==> ({
            let ti = topic_index(v, topic);
            let di = device_index(v[ti].1, id);
            &&& update_device_spec(v, topic, id, t, f).0 == set_device(v, ti, di, nd)
            &&& nd.device_id == v[ti].1[di].device_id
            &&& nd.topic == v[ti].1[di].topic
        }),
{
}

/// A refused command leaves the registry as it was; an accepted one changes only the
/// activation of the commanded device.
pub proof fn command_changes_one_activation(v: Seq<TopicView>, id: Seq<char>, c: CommandType)
    ensures
        command_spec(v, id, c).1 is Err ==> command_spec(v, id, c).0 == v,
        command_spec(v, id, c).1 matches Ok(nd) ==> ({
            let (ti, di) = locate_spec(v, id)->0;
            &&& command_spec(v, id, c).0 == set_device(v, ti, di, nd)
            &&& nd == DeviceView { activated: nd.activated, ..v[ti].1[di] }
        }),
{
}


/// `s` with `y` added at the end unless it is already there.
pub open spec fn append_one(s: Seq<Seq<char>>, y: Seq<char>) -> Seq<Seq<char>> {
    if s.contains(y) { s } else { s.push(y) }
}

/// `s` followed by the elements of `new` that are not yet there, once each, in the order
/// of their first occurrence.
pub open spec fn append_new(s: Seq<Seq<char>>, new: Seq<Seq<char>>) -> Seq<Seq<char>>
    decreases new.len(),
{
    if new.len() == 0 {
        s
    } else {
        append_one(append_new(s, new.drop_last()), new.last())
    }
}

/// The topics of the registry, in order.
pub open spec fn topic_keys(v: Seq<TopicView>) -> Seq<Seq<char>> {
    v.map_values(|e: TopicView| e.0)
}

/// The ids of a list of devices, in order.
pub open spec fn device_ids(ds: Seq<DeviceView>) -> Seq<Seq<char>> {
    ds.map_values(|d: DeviceView| d.device_id)
}

/// The ids of the devices under topic `t`, in order; none when the topic has no entry.
pub open spec fn topic_ids(v: Seq<TopicView>, t: Seq<char>) -> Seq<Seq<char>> {
    if has_topic(v, t) { device_ids(v[topic_index(v, t)].1) } else { Seq::empty() }
}

/// The topics of a list of devices, in order.
pub open spec fn list_topics(xs: Seq<DeviceView>) -> Seq<Seq<char>> {
    xs.map_values(|x: DeviceView| x.topic)
}

/// The ids of the devices of a list that are under topic `t`, in order.
pub open spec fn ids_under(xs: Seq<DeviceView>, t: Seq<char>) -> Seq<Seq<char>>
    decreases xs.len(),
{
    if xs.len() == 0 {
        Seq::empty()
    } else if xs.last().topic == t {
        ids_under(xs.drop_last(), t).push(xs.last().device_id)
    } else {
        ids_under(xs.drop_last(), t)
    }
}

proof fn lemma_topic_index_at(w: Seq<TopicView>, t: Seq<char>, i: int)
    requires
        topics_distinct(w),
        0 <= i < w.len(),
        w[i].0 == t,
    ensures
        has_topic(w, t),
        topic_index(w, t) == i,
{
}

proof fn lemma_device_index_at(ds: Seq<DeviceView>, id: Seq<char>, j: int)
    requires
        ids_distinct(ds),
        0 <= j < ds.len(),
        ds[j].device_id == id,
    ensures
        has_device(ds, id),
        device_index(ds, id) == j,
{
}

proof fn lemma_keys_contains(v: Seq<TopicView>, t: Seq<char>)
    ensures
        topic_keys(v).contains(t) == has_topic(v, t),
{
    if has_topic(v, t) {
        let i = choose|i: int| 0 <= i < v.len() && v[i].0 == t;
        assert(topic_keys(v)[i] == t);
    }
}

proof fn lemma_ids_contains(ds: Seq<DeviceView>, id: Seq<char>)
    ensures
        device_ids(ds).contains(id) == has_device(ds, id),
{
    if has_device(ds, id) {
        let i = choose|i: int| 0 <= i < ds.len() && ds[i].device_id == id;
        assert(device_ids(ds)[i] == id);
    }
}

proof fn lemma_upsert_shape(w: Seq<TopicView>, x: DeviceView)
    requires
        container_wf(w),
    ensures
        topic_keys(upsert_spec(w, x)) == append_one(topic_keys(w), x.topic),
        forall|t: Seq<char>| #[trigger] topic_ids(upsert_spec(w, x), t) == if t == x.topic {
            append_one(topic_ids(w, t), x.device_id)
        } else {
            topic_ids(w, t)
        },
{
    lemma_upsert_wf(w, x);
    let w1 = upsert_spec(w, x);
    lemma_keys_contains(w, x.topic);
    if has_topic(w, x.topic) {
        let ti = topic_index(w, x.topic);
        assert(topic_keys(w1) =~= topic_keys(w));
        assert forall|t: Seq<char>| #[trigger] topic_ids(w1, t) == if t == x.topic {
            append_one(topic_ids(w, t), x.device_id)
        } else {
            topic_ids(w, t)
        } by {
            if has_topic(w, t) {
                let i = topic_index(w, t);
                assert(w1[i].0 == t);
                lemma_topic_index_at(w1, t, i);
                if i == ti {
                    lemma_ids_contains(w[ti].1, x.device_id);
                    if has_device(w[ti].1, x.device_id) {
                        assert(device_ids(w1[ti].1) =~= device_ids(w[ti].1));
                    } else {
                        assert(device_ids(w1[ti].1) =~= device_ids(w[ti].1).push(x.device_id));
                    }
                } else {
                    assert(w1[i] == w[i]);
                }
            } else {
                lemma_keys_contains(w, t);
                lemma_keys_contains(w1, t);
            }
        }
    } else {
        assert(topic_keys(w1) =~= topic_keys(w).push(x.topic));
        assert forall|t: Seq<char>| #[trigger] topic_ids(w1, t) == if t == x.topic {
            append_one(topic_ids(w, t), x.device_id)
        } else {
            topic_ids(w, t)
        } by {
            if t == x.topic {
                lemma_topic_index_at(w1, t, w.len() as int);
                assert(device_ids(w1[w.len() as int].1) =~= seq![x.device_id]);
                assert(append_one(Seq::<Seq<char>>::empty(), x.device_id) =~= seq![x.device_id]);
            } else if has_topic(w, t) {
                let i = topic_index(w, t);
                assert(w1[i] == w[i]);
                lemma_topic_index_at(w1, t, i);
            } else {
                lemma_keys_contains(w, t);
                lemma_keys_contains(w1, t);
                assert(topic_keys(w1) =~= topic_keys(w).push(x.topic));
            }
        }
    }
}

proof fn lemma_upsert_all_wf(v: Seq<TopicView>, xs: Seq<DeviceView>)
    requires
        container_wf(v),
    ensures
        container_wf(upsert_all(v, xs)),
    decreases xs.len(),
{
    if xs.len() > 0 {
        lemma_upsert_all_wf(v, xs.drop_last());
        lemma_upsert_wf(upsert_all(v, xs.drop_last()), xs.last());
    }
}

/// Adding the devices of a list one after the other keeps topics distinct and ids
/// distinct within each topic, removes no topic and no device, appends the new topics in
/// the order they first occur in the list, and appends under each topic the ids of the
/// listed devices on that topic that were not there yet, once each, in the order they
/// first occur.
pub proof fn add_list_shape(v: Seq<TopicView>, xs: Seq<DeviceView>)
    requires
        container_wf(v),
    ensures
        container_wf(upsert_all(v, xs)),
        topic_keys(upsert_all(v, xs)) == append_new(topic_keys(v), list_topics(xs)),
        forall|t: Seq<char>| #[trigger] topic_ids(upsert_all(v, xs), t) == append_new(topic_ids(v, t), ids_under(xs, t)),
    decreases xs.len(),
{
    lemma_upsert_all_wf(v, xs);
    if xs.len() > 0 {
        let p = xs.drop_last();
        let x = xs.last();
        add_list_shape(v, p);
        lemma_upsert_all_wf(v, p);
        lemma_upsert_shape(upsert_all(v, p), x);
        assert(list_topics(xs).drop_last() =~= list_topics(p));
        assert forall|t: Seq<char>| #[trigger] topic_ids(upsert_all(v, xs), t) == append_new(topic_ids(v, t), ids_under(xs, t)) by {
            assert(topic_ids(upsert_all(v, p), t) == append_new(topic_ids(v, t), ids_under(p, t)));
            if x.topic == t {
                assert(ids_under(xs, t).drop_last() =~= ids_under(p, t));
            }
        }
    } else {
        assert(topic_keys(upsert_all(v, xs)) == topic_keys(v));
    }
}


/// Device `d` under topic `t` after the devices of `ys` with its topic and id have been
/// applied to it one after the other, as `Device::update` applies them.
pub open spec fn last_update(t: Seq<char>, d: DeviceView, ys: Seq<DeviceView>) -> DeviceView
    decreases ys.len(),
{
    if ys.len() == 0 {
        d
    } else {
        let p = last_update(t, d, ys.drop_last());
        if ys.last().topic == t && ys.last().device_id == d.device_id {
            updated_view(p, ys.last())
        } else {
            p
        }
    }
}

/// The registry with every device brought up to date by the devices of `ys` with its
/// topic and id.
pub open spec fn apply_updates(u: Seq<TopicView>, ys: Seq<DeviceView>) -> Seq<TopicView> {
    u.map_values(|e: TopicView| (e.0, e.1.map_values(|d: DeviceView| last_update(e.0, d, ys))))
}

proof fn lemma_last_update_keeps(t: Seq<char>, d: DeviceView, ys: Seq<DeviceView>)
    ensures
        last_update(t, d, ys).device_id == d.device_id,
        last_update(t, d, ys).topic == d.topic,
    decreases ys.len(),
{
    if ys.len() > 0 {
        lemma_last_update_keeps(t, d, ys.drop_last());
    }
}

proof fn lemma_append_new_contains(s: Seq<Seq<char>>, new: Seq<Seq<char>>)
    ensures
        forall|y: Seq<char>| s.contains(y) ==> #[trigger] append_new(s, new).contains(y),
        forall|k: int| 0 <= k < new.len() ==> append_new(s, new).contains(#[trigger] new[k]),
    decreases new.len(),
{
    if new.len() > 0 {
        lemma_append_new_contains(s, new.drop_last());
        let p = append_new(s, new.drop_last());
        assert forall|y: Seq<char>| p.contains(y) implies #[trigger] append_one(p, new.last()).contains(y) by {
            if !p.contains(new.last()) {
                let i = choose|i: int| 0 <= i < p.len() && p[i] == y;
                assert(p.push(new.last())[i] == y);
            }
        }
        assert(append_one(p, new.last()).contains(new.last())) by {
            if !p.contains(new.last()) {
                assert(p.push(new.last())[p.len() as int] == new.last());
            }
        }
        assert forall|k: int| 0 <= k < new.len() implies append_new(s, new).contains(#[trigger] new[k]) by {
            if k < new.len() - 1 {
                assert(new.drop_last()[k] == new[k]);
            }
        }
    }
}

proof fn lemma_ids_under_contains(xs: Seq<DeviceView>, t: Seq<char>, k: int)
    requires
        0 <= k < xs.len(),
        xs[k].topic == t,
    ensures
        ids_under(xs, t).contains(xs[k].device_id),
    decreases xs.len(),
{
    let u = ids_under(xs, t);
    if k == xs.len() - 1 {
        assert(u[u.len() - 1] == xs[k].device_id);
    } else {
        assert(xs.drop_last()[k] == xs[k]);
        lemma_ids_under_contains(xs.drop_last(), t, k);
        let p = ids_under(xs.drop_last(), t);
        let i = choose|i: int| 0 <= i < p.len() && p[i] == xs[k].device_id;
        if xs.last().topic == t {
            assert(u[i] == p[i]);
        }
    }
}

/// Every listed device is registered after the list was added: its topic has an entry,
/// and that entry a device with its id.
proof fn lemma_list_present(v: Seq<TopicView>, xs: Seq<DeviceView>, k: int)
    requires
        container_wf(v),
        0 <= k < xs.len(),
    ensures
        has_topic(upsert_all(v, xs), xs[k].topic),
        has_device(upsert_all(v, xs)[topic_index(upsert_all(v, xs), xs[k].topic)].1, xs[k].device_id),
{
    let w = upsert_all(v, xs);
    let t = xs[k].topic;
    add_list_shape(v, xs);
    lemma_append_new_contains(topic_keys(v), list_topics(xs));
    assert(list_topics(xs)[k] == t);
    lemma_keys_contains(w, t);
    lemma_ids_under_contains(xs, t, k);
    lemma_append_new_contains(topic_ids(v, t), ids_under(xs, t));
    assert(topic_ids(w, t) == append_new(topic_ids(v, t), ids_under(xs, t)));
    lemma_ids_contains(w[topic_index(w, t)].1, xs[k].device_id);
}

/// Every device of the registry after a list was added is up to date with the last
/// listed device of its topic and id.
proof fn lemma_list_settled(v: Seq<TopicView>, xs: Seq<DeviceView>)
    requires
        container_wf(v),
    ensures
        ({
            let w = upsert_all(v, xs);
            forall|i: int, j: int| 0 <= i < w.len() && 0 <= j < w[i].1.len()
                ==> last_update(w[i].0, #[trigger] w[i].1[j], xs) == w[i].1[j]
        }),
    decreases xs.len(),
{
    if xs.len() > 0 {
        let p = xs.drop_last();
        let x = xs.last();
        lemma_list_settled(v, p);
        lemma_upsert_all_wf(v, p);
        let w0 = upsert_all(v, p);
        let w1 = upsert_spec(w0, x);
        lemma_upsert_wf(w0, x);
        assert forall|i: int, j: int| 0 <= i < w1.len() && 0 <= j < w1[i].1.len()
            implies last_update(w1[i].0, #[trigger] w1[i].1[j], xs) == w1[i].1[j] by {
            let d1 = w1[i].1[j];
            let t = w1[i].0;
            lemma_last_update_keeps(t, d1, p);
            if t == x.topic && d1.device_id == x.device_id {
                lemma_topic_index_at(w1, t, i);
                lemma_device_index_at(w1[i].1, x.device_id, j);
                if has_topic(w0, x.topic) {
                    let ti = topic_index(w0, x.topic);
                    assert(w1[ti].0 == t);
                    lemma_topic_index_at(w1, t, ti);
                    if has_device(w0[ti].1, x.device_id) {
                        let di = device_index(w0[ti].1, x.device_id);
                        assert(w1[ti].1[di].device_id == x.device_id);
                        lemma_device_index_at(w1[ti].1, x.device_id, di);
                    } else {
                        let di = w0[ti].1.len() as int;
                        assert(w1[ti].1[di] == x);
                        lemma_device_index_at(w1[ti].1, x.device_id, di);
                    }
                } else {
                    let ti = w0.len() as int;
                    assert(w1[ti].0 == t);
                    lemma_topic_index_at(w1, t, ti);
                    assert(w1[ti].1[0] == x);
                    lemma_device_index_at(w1[ti].1, x.device_id, 0);
                }
            } else {
                if has_topic(w0, x.topic) {
                    let ti = topic_index(w0, x.topic);
                    if i == ti {
                        if has_device(w0[ti].1, x.device_id) {
                            let di = device_index(w0[ti].1, x.device_id);
                            if j == di {
                                assert(w1[i].1[j].device_id == x.device_id);
                            }
                            assert(w1[i].1[j] == w0[i].1[j]);
                        } else {
                            if j == w0[ti].1.len() {
                                assert(w1[i].1[j] == x);
                            }
                            assert(w1[i].1[j] == w0[i].1[j]);
                        }
                    } else {
                        assert(w1[i] == w0[i]);
                    }
                } else {
                    if i == w0.len() {
                        assert(w1[i].0 == x.topic);
                    }
                    assert(w1[i] == w0[i]);
                }
            }
        }
    }
}

/// Adding devices whose topics and ids are all registered brings each device up to date
/// with the last of them that has its topic and id, and changes nothing else.
proof fn lemma_apply_present(u: Seq<TopicView>, ys: Seq<DeviceView>)
    requires
        container_wf(u),
        forall|k: int| 0 <= k < ys.len() ==> has_topic(u, (#[trigger] ys[k]).topic)
            && has_device(u[topic_index(u, ys[k].topic)].1, ys[k].device_id),
    ensures
        upsert_all(u, ys) == apply_updates(u, ys),
    decreases ys.len(),
{
    if ys.len() == 0 {
        assert forall|i: int| 0 <= i < u.len() implies #[trigger] apply_updates(u, ys)[i] == u[i] by {
            assert(apply_updates(u, ys)[i].1 =~= u[i].1);
        }
        assert(apply_updates(u, ys) =~= u);
    } else {
        let p = ys.drop_last();
        let y = ys.last();
        assert forall|k: int| 0 <= k < p.len() implies has_topic(u, (#[trigger] p[k]).topic)
            && has_device(u[topic_index(u, p[k].topic)].1, p[k].device_id) by {
            assert(p[k] == ys[k]);
        }
        lemma_apply_present(u, p);
        let m = apply_updates(u, p);
        assert(ys[ys.len() - 1] == y);
        let ti = topic_index(u, y.topic);
        let di = device_index(u[ti].1, y.device_id);
        lemma_last_update_keeps(u[ti].0, u[ti].1[di], p);
        assert(m[ti].0 == y.topic);
        assert(container_wf(m)) by {
            assert forall|a: int| 0 <= a < m.len() implies ids_distinct(#[trigger] m[a].1) by {
                assert(ids_distinct(u[a].1));
                assert forall|b: int, c: int| 0 <= b < m[a].1.len() && 0 <= c < m[a].1.len() && b != c
                    implies m[a].1[b].device_id != m[a].1[c].device_id by {
                    lemma_last_update_keeps(u[a].0, u[a].1[b], p);
                    lemma_last_update_keeps(u[a].0, u[a].1[c], p);
                }
            }
        }
        lemma_topic_index_at(m, y.topic, ti);
        assert(m[ti].1[di].device_id == y.device_id);
        lemma_device_index_at(m[ti].1, y.device_id, di);
        let r = apply_updates(u, ys);
        let w = upsert_spec(m, y);
        assert(w == set_device(m, ti, di, updated_view(m[ti].1[di], y)));
        assert forall|i: int| 0 <= i < u.len() implies #[trigger] w[i] == r[i] by {
            assert forall|j: int| 0 <= j < u[i].1.len() implies #[trigger] w[i].1[j] == r[i].1[j] by {
                lemma_last_update_keeps(u[i].0, u[i].1[j], p);
                if i == ti && j == di {
                } else if i == ti {
                    assert(ids_distinct(u[i].1));
                    assert(u[i].1[j].device_id != y.device_id);
                } else {
                    assert(u[i].0 != y.topic);
                }
            }
            assert(w[i].1 =~= r[i].1);
        }
        assert(w =~= r);
    }
}

/// Adding the same list of devices a second time leaves the registry as the first time
/// left it.
pub proof fn add_list_idempotent(v: Seq<TopicView>, xs: Seq<DeviceView>)
    requires
        container_wf(v),
    ensures
        upsert_all(upsert_all(v, xs), xs) == upsert_all(v, xs),
{
    let w = upsert_all(v, xs);
    lemma_upsert_all_wf(v, xs);
    assert forall|k: int| 0 <= k < xs.len() implies has_topic(w, (#[trigger] xs[k]).topic)
        && has_device(w[topic_index(w, xs[k].topic)].1, xs[k].device_id) by {
        lemma_list_present(v, xs, k);
    }
    lemma_apply_present(w, xs);
    lemma_list_settled(v, xs);
    let r = apply_updates(w, xs);
    assert forall|i: int| 0 <= i < w.len() implies #[trigger] r[i] == w[i] by {
        assert(r[i].1 =~= w[i].1);
    }
    assert(r =~= w);
}

/// Toggling the same ids twice gives back the registry it was.
pub proof fn toggle_matching_twice(v: Seq<TopicView>, ids: Seq<Seq<char>>)
    ensures
        toggle_matching(toggle_matching(v, ids), ids) == v,
{
    let w = toggle_matching(toggle_matching(v, ids), ids);
    assert forall|i: int| 0 <= i < v.len() implies #[trigger] w[i] == v[i] by {
        let t = toggle_topic(toggle_topic(v[i], ids), ids);
        assert(t.1 =~= v[i].1);
    }
    assert(w =~= v);
}

/// Whether device `e` is device `d` under the same id and topic, with the same type
/// and name.
pub open spec fn same_device(e: DeviceView, d: DeviceView) -> bool {
    &&& e.device_id == d.device_id
    &&& e.topic == d.topic
    &&& e.device_type == d.device_type
    &&& e.name == d.name
}

/// Whether registry `w` has the shape of `v` and holds the same devices as `v` at every
/// position but position `di` of topic entry `ti`.
pub open spec fn same_elsewhere(w: Seq<TopicView>, v: Seq<TopicView>, ti: int, di: int) -> bool {
    &&& w.len() == v.len()
    &&& forall|a: int| 0 <= a < v.len() ==> (#[trigger] w[a]).0 == v[a].0 && w[a].1.len() == v[a].1.len()
    &&& forall|a: int, b: int| 0 <= a < v.len() && 0 <= b < v[a].1.len() && (a != ti || b != di)
        ==> #[trigger] w[a].1[b] == v[a].1[b]
}

/// Whether some device of the registry has id `id`.
pub open spec fn registered(v: Seq<TopicView>, id: Seq<char>) -> bool {
    exists|a: int, b: int| 0 <= a < v.len() && 0 <= b < v[a].1.len() && #[trigger] v[a].1[b].device_id == id
}

/// The search for a device by id finds one exactly when some device has that id, and
/// what it finds is a device with that id.
pub proof fn locate_finds_registered(v: Seq<TopicView>, id: Seq<char>)
    ensures
        locate_spec(v, id) is Some <==> registered(v, id),
        locate_spec(v, id) matches Some((ti, di)) ==> 0 <= ti < v.len() && 0 <= di < v[ti].1.len()
            && v[ti].1[di].device_id == id,
{
    lemma_locate_valid(v, id);
    match locate_spec(v, id) {
        Some((ti, di)) => {
            assert(v[ti].1[di].device_id == id);
        },
        None => {
            if registered(v, id) {
                let (a, b) = choose|a: int, b: int| 0 <= a < v.len() && 0 <= b < v[a].1.len() && #[trigger] v[a].1[b].device_id == id;
                assert(has_device(v[a].1, id));
            }
        },
    }
}

/// In a well-formed registry the search for a device by id finds the first one: no device
/// with that id stands in an earlier topic entry, and within its entry it is the only one.
pub proof fn locate_finds_first(v: Seq<TopicView>, id: Seq<char>)
    requires
        container_wf(v),
    ensures
        locate_spec(v, id) matches Some((ti, di)) ==> forall|a: int, b: int|
            0 <= a < v.len() && 0 <= b < v[a].1.len() && #[trigger] v[a].1[b].device_id == id
            ==> ti < a || (ti == a && di == b),
    decreases v.len(),
{
    if v.len() > 0 {
        let p = v.drop_last();
        assert forall|i: int| 0 <= i < p.len() implies ids_distinct(#[trigger] p[i].1) by {
            assert(p[i] == v[i]);
        }
        locate_finds_first(p, id);
        lemma_locate_valid(p, id);
        lemma_locate_valid(v, id);
        match locate_spec(p, id) {
            Some((ti, di)) => {
                assert forall|a: int, b: int|
                    0 <= a < v.len() && 0 <= b < v[a].1.len() && #[trigger] v[a].1[b].device_id == id
                    implies ti < a || (ti == a && di == b) by {
                    if a < p.len() {
                        assert(p[a] == v[a]);
                    }
                }
            },
            None => {
                if let Some((ti, di)) = locate_spec(v, id) {
                    assert forall|a: int, b: int|
                        0 <= a < v.len() && 0 <= b < v[a].1.len() && #[trigger] v[a].1[b].device_id == id
                        implies ti < a || (ti == a && di == b) by {
                        if a < p.len() {
                            assert(p[a] == v[a]);
                            assert(has_device(p[a].1, id));
                        } else {
                            assert(ids_distinct(v[a].1));
                        }
                    }
                }
            },
        }
    }
}

/// A client command is accepted exactly when some device has its id and the command is
/// known. It then changes only the activation of the first device with that id: `ENABLE`
/// activates it and `DISABLE` deactivates it whatever it was, `TOGGLE` negates it; the
/// answer is that device as it is now. A refused command changes nothing.
pub proof fn command_sets_activation(v: Seq<TopicView>, id: Seq<char>, c: CommandType)
    ensures
        command_spec(v, id, c).1 is Ok <==> registered(v, id) && c != CommandType::UNKNOWN,
        command_spec(v, id, c).1 is Err ==> command_spec(v, id, c).0 == v,
        command_spec(v, id, c).1 matches Ok(nd) ==> locate_spec(v, id) matches Some((ti, di)) && {
            let d = v[ti].1[di];
            let w = command_spec(v, id, c).0;
            &&& d.device_id == id
            &&& same_device(nd, d)
            &&& nd.connected == d.connected
            &&& nd.value == d.value
            &&& (c == CommandType::ENABLE ==> nd.activated)
            &&& (c == CommandType::DISABLE ==> !nd.activated)
            &&& (c == CommandType::TOGGLE ==> nd.activated == !d.activated)
            &&& 0 <= ti < w.len() && 0 <= di < w[ti].1.len() && w[ti].1[di] == nd
            &&& same_elsewhere(w, v, ti, di)
        },
{
    locate_finds_registered(v, id);
}

/// An update for a device registered under its topic is accepted exactly when its kind
/// changes a device and the field it reads is there (and, for a connection or activation
/// change, holds a boolean). A connection change sets the connection to the boolean of
/// field `connected` and an activation change sets the activation to it; a value change
/// stores the JSON text of field `value`. Nothing else of the device changes, and no other
/// device; a refused update changes nothing.
pub proof fn update_sets_named_field(
    v: Seq<TopicView>,
    topic: Seq<char>,
    id: Seq<char>,
    t: DeviceUpdateType,
    f: Map<Seq<char>, FieldValue>,
    ti: int,
    di: int,
)
    requires
        container_wf(v),
        0 <= ti < v.len(),
        v[ti].0 == topic,
        0 <= di < v[ti].1.len(),
        v[ti].1[di].device_id == id,
    ensures
        update_device_spec(v, topic, id, t, f).1 is Ok <==> match t {
            DeviceUpdateType::CONN_CHANGE => f.dom().contains("connected"@) && f["connected"@] is Bool,
            DeviceUpdateType::ACTIVATION_CHANGE => f.dom().contains("connected"@) && f["connected"@] is Bool,
            DeviceUpdateType::VALUE_CHANGE => f.dom().contains("value"@),
            DeviceUpdateType::ALL => false,
        },
        update_device_spec(v, topic, id, t, f).1 is Err ==> update_device_spec(v, topic, id, t, f).0 == v,
        update_device_spec(v, topic, id, t, f).1 matches Ok(nd) ==> {
            let d = v[ti].1[di];
            let w = update_device_spec(v, topic, id, t, f).0;
            &&& same_device(nd, d)
            &&& (t == DeviceUpdateType::CONN_CHANGE ==> f["connected"@] == FieldValue::Bool(nd.connected)
                    && nd.activated == d.activated && nd.value == d.value)
            &&& (t == DeviceUpdateType::ACTIVATION_CHANGE ==> f["connected"@] == FieldValue::Bool(nd.activated)
                    && nd.connected == d.connected && nd.value == d.value)
            &&& (t == DeviceUpdateType::VALUE_CHANGE ==> nd.value == Some(field_json_text(f["value"@]))
                    && nd.connected == d.connected && nd.activated == d.activated)
            &&& w[ti].1[di] == nd
            &&& same_elsewhere(w, v, ti, di)
        },
{
    lemma_topic_index_at(v, topic, ti);
    lemma_device_index_at(v[ti].1, id, di);
}

/// An update for a topic with no entry is refused with `TopicNotFound`, and one for an id
/// that its topic does not hold with `DeviceNotFound`; neither changes the registry.
pub proof fn update_unknown_refused(
    v: Seq<TopicView>,
    topic: Seq<char>,
    id: Seq<char>,
    t: DeviceUpdateType,
    f: Map<Seq<char>, FieldValue>,
)
    requires
        container_wf(v),
    ensures
        (forall|a: int| 0 <= a < v.len() ==> (#[trigger] v[a]).0 != topic) ==>
            update_device_spec(v, topic, id, t, f) == (v, Err::<DeviceView, UpdateError>(UpdateError::TopicNotFound)),
        (exists|a: int| 0 <= a < v.len() && (#[trigger] v[a]).0 == topic
            && forall|b: int| 0 <= b < v[a].1.len() ==> (#[trigger] v[a].1[b]).device_id != id) ==>
            update_device_spec(v, topic, id, t, f) == (v, Err::<DeviceView, UpdateError>(UpdateError::DeviceNotFound)),
{
    if exists|a: int| 0 <= a < v.len() && (#[trigger] v[a]).0 == topic
        && forall|b: int| 0 <= b < v[a].1.len() ==> (#[trigger] v[a].1[b]).device_id != id {
        let a = choose|a: int| 0 <= a < v.len() && (#[trigger] v[a]).0 == topic
            && forall|b: int| 0 <= b < v[a].1.len() ==> (#[trigger] v[a].1[b]).device_id != id;
        lemma_topic_index_at(v, topic, a);
    }
}

/// Reading the value of a device registered under a topic gives its id and its value,
/// or the text `null` when it has none.
pub proof fn value_reads_device(v: Seq<TopicView>, topic: Seq<char>, id: Seq<char>, ti: int, di: int)
    requires
        container_wf(v),
        0 <= ti < v.len(),
        v[ti].0 == topic,
        0 <= di < v[ti].1.len(),
        v[ti].1[di].device_id == id,
    ensures
        value_spec(v, topic, id) matches Ok((rid, val)) && rid == id && (match v[ti].1[di].value {
            Some(t) => val == t,
            None => val == "null"@,
        }),
{
    lemma_topic_index_at(v, topic, ti);
    lemma_device_index_at(v[ti].1, id, di);
}

/// A replacement device whose id is registered under its topic is taken over: the stored
/// device gets its type, name, connection, activation and value and keeps its id and
/// topic, no other device changes, and the answer is `true`.
pub proof fn replace_takes_fields(v: Seq<TopicView>, x: DeviceView, ti: int, di: int)
    requires
        container_wf(v),
        0 <= ti < v.len(),
        v[ti].0 == x.topic,
        0 <= di < v[ti].1.len(),
        v[ti].1[di].device_id == x.device_id,
    ensures
        replace_spec(v, x).1,
        ({
            let d = v[ti].1[di];
            let e = replace_spec(v, x).0[ti].1[di];
            &&& e.device_id == d.device_id
            &&& e.topic == d.topic
            &&& e.device_type == x.device_type
            &&& e.name == x.name
            &&& e.connected == x.connected
            &&& e.activated == x.activated
            &&& e.value == x.value
        }),
        same_elsewhere(replace_spec(v, x).0, v, ti, di),
{
    lemma_topic_index_at(v, x.topic, ti);
    lemma_device_index_at(v[ti].1, x.device_id, di);
}

/// A replacement device whose id is not registered under its topic changes no device:
/// the answer is `false`, and at most an empty entry for its topic is added.
pub proof fn replace_unknown_changes_nothing(v: Seq<TopicView>, x: DeviceView)
    requires
        container_wf(v),
        forall|a: int, b: int| 0 <= a < v.len() && 0 <= b < v[a].1.len() && v[a].0 == x.topic
            ==> #[trigger] v[a].1[b].device_id != x.device_id,
    ensures
        !replace_spec(v, x).1,
        replace_spec(v, x).0.len() >= v.len(),
        forall|a: int| 0 <= a < v.len() ==> #[trigger] replace_spec(v, x).0[a] == v[a],
        forall|a: int| v.len() <= a < replace_spec(v, x).0.len() ==> #[trigger] replace_spec(v, x).0[a].1.len() == 0,
{
    let v1 = if has_topic(v, x.topic) { v } else { v.push((x.topic, Seq::<DeviceView>::empty())) };
    let ti = topic_index(v1, x.topic);
    if has_topic(v, x.topic) {
        assert(0 <= ti < v.len() && v[ti].0 == x.topic);
        if has_device(v1[ti].1, x.device_id) {
            let b = choose|b: int| 0 <= b < v1[ti].1.len() && v1[ti].1[b].device_id == x.device_id;
            assert(v[ti].1[b].device_id != x.device_id);
        }
    } else {
        assert(v1[v.len() as int].0 == x.topic);
        assert(0 <= ti < v1.len() && v1[ti].0 == x.topic);
        if ti < v.len() {
            assert(v[ti].0 == x.topic);
        }
    }
}

/// Firing a timed toggle flips the activation of every registered device whose id is
/// listed, whatever its connection or value, and changes nothing else of any device.
pub proof fn toggle_flips_listed(v: Seq<TopicView>, ids: Seq<Seq<char>>)
    ensures
        toggle_matching(v, ids).len() == v.len(),
        forall|a: int| 0 <= a < v.len() ==> (#[trigger] toggle_matching(v, ids)[a]).0 == v[a].0
            && toggle_matching(v, ids)[a].1.len() == v[a].1.len(),
        forall|a: int, b: int| 0 <= a < v.len() && 0 <= b < v[a].1.len() ==> {
            let d = v[a].1[b];
            let e = #[trigger] toggle_matching(v, ids)[a].1[b];
            &&& same_device(e, d)
            &&& e.connected == d.connected
            &&& e.value == d.value
            &&& (ids.contains(d.device_id) ==> e.activated == !d.activated)
            &&& (!ids.contains(d.device_id) ==> e.activated == d.activated)
        },
{
}

/// The devices of one topic.
struct TopicDevices {
    topic: String,
    devices: Vec<Device>,
}

impl View for TopicDevices {
    type V = TopicView;

    closed spec fn view(&self) -> TopicView {
        (self.topic@, self.devices@.map_values(|d: Device| d@))
    }
}

fn topic_pos(topics: &Vec<TopicDevices>, topic: &str) -> (r: Option<usize>)
    ensures
        match r {
            Some(i) => i < topics@.len() && topics@[i as int]@.0 == topic@,
            None => forall|i: int| 0 <= i < topics@.len() ==> topics@[i]@.0 != topic@,
        },
{
    let mut i: usize = 0;
    while i < topics.len()
        invariant
            i <= topics@.len(),
            forall|j: int| 0 <= j < i ==> topics@[j]@.0 != topic@,
        decreases topics@.len() - i,
    {
        if topics[i].topic.as_str().to_owned() == topic.to_owned() {
            assert(topics@[i as int]@.0 == topics@[i as int].topic@);
            return Some(i);
        }
        i = i + 1;
    }
    None
}

fn device_pos(devices: &Vec<Device>, id: &str) -> (r: Option<usize>)
    ensures
        match r {
            Some(i) => i < devices@.len() && devices@[i as int]@.device_id == id@,
            None => forall|i: int| 0 <= i < devices@.len() ==> devices@[i]@.device_id != id@,
        },
{
    let mut i: usize = 0;
    while i < devices.len()
        invariant
            i <= devices@.len(),
            forall|j: int| 0 <= j < i ==> devices@[j]@.device_id != id@,
        decreases devices@.len() - i,
    {
        if devices[i].device_id.as_str().to_owned() == id.to_owned() {
            return Some(i);
        }
        i = i + 1;
    }
    None
}

/// The hub's device registry: devices grouped by topic, topics in the order they were
/// first seen, devices in each topic in the order they were added.
pub struct DeviceContainer {
    topics: Vec<TopicDevices>,
}

impl View for DeviceContainer {
    type V = Seq<TopicView>;

    closed spec fn view(&self) -> Seq<TopicView> {
        self.topics@.map_values(|t: TopicDevices| t@)
    }
}

impl DeviceContainer {
    #[verifier::type_invariant]
    closed spec fn wf(&self) -> bool {
        container_wf(self@)
    }

    /// The empty registry.
    pub fn new() -> (c: DeviceContainer)
        ensures
            c@ == Seq::<TopicView>::empty(),
            container_wf(c@),
    {
        let c = DeviceContainer { topics: Vec::new() };
        assert(c@ =~= Seq::<TopicView>::empty());
        c
    }

    /// Adds device `x`, or refreshes the device with its id under its topic
    /// (see `upsert_spec`).
    pub fn upsert_device(&mut self, x: &Device)
        ensures
            final(self)@ == upsert_spec(old(self)@, x@),
            container_wf(final(self)@),
    {
        proof { use_type_invariant(&*self); }
        let ghost v = self@;
        let mut topics: Vec<TopicDevices> = Vec::new();
        std::mem::swap(&mut topics, &mut self.topics);
        assert(topics@.map_values(|t: TopicDevices| t@) == v);
        match topic_pos(&topics, x.topic.as_str()) {
            Some(ti) => {
                assert(v[ti as int].0 == x@.topic);
                assert(topic_index(v, x@.topic) == ti);
                let mut entry = topics.remove(ti);
                assert(entry@ == v[ti as int]);
                match device_pos(&entry.devices, x.device_id.as_str()) {
                    Some(di) => {
                        assert(entry@.1[di as int].device_id == x@.device_id);
                        assert(device_index(v[ti as int].1, x@.device_id) == di);
                        let mut d = entry.devices.remove(di);
                        d.update(x);
                        entry.devices.insert(di, d);
                        assert(entry@ =~= (v[ti as int].0, v[ti as int].1.update(di as int, updated_view(v[ti as int].1[di as int], x@))));
                    },
                    None => {
                        assert(!has_device(v[ti as int].1, x@.device_id));
                        entry.devices.push(x.duplicate());
                        assert(entry@ =~= (v[ti as int].0, v[ti as int].1.push(x@)));
                    },
                }
                topics.insert(ti, entry);
                assert(topics@.map_values(|t: TopicDevices| t@) =~= upsert_spec(v, x@));
            },
            None => {
                assert(!has_topic(v, x@.topic));
                let mut devices: Vec<Device> = Vec::new();
                devices.push(x.duplicate());
                let entry = TopicDevices { topic: x.topic.clone(), devices };
                assert(entry@ =~= (x@.topic, seq![x@]));
                topics.push(entry);
                assert(topics@.map_values(|t: TopicDevices| t@) =~= upsert_spec(v, x@));
            },
        }
        proof { lemma_upsert_wf(v, x@); }
        self.topics = topics;
    }


    fn locate(&self, id: &str) -> (r: Option<(usize, usize)>)
        ensures
            match r {
                Some((ti, di)) => locate_spec(self@, id@) == Some((ti as int, di as int))
                    && ti < self@.len() && di < self@[ti as int].1.len()
                    && self@[ti as int].1[di as int].device_id == id@,
                None => locate_spec(self@, id@) is None,
            },
    {
        proof { use_type_invariant(self); }
        let mut i: usize = 0;
        while i < self.topics.len()
            invariant
                i <= self.topics@.len(),
                container_wf(self@),
                locate_spec(self@.take(i as int), id@) is None,
            decreases self.topics@.len() - i,
        {
            match device_pos(&self.topics[i].devices, id) {
                Some(di) => {
                    proof {
                        let w = self@.take(i + 1);
                        assert(w.drop_last() =~= self@.take(i as int));
                        assert(w.last() == self@[i as int]);
                        assert(self@[i as int].1[di as int].device_id == id@);
                        assert(device_index(self@[i as int].1, id@) == di);
                        lemma_locate_prefix(self@, id@, i + 1);
                    }
                    return Some((i, di));
                },
                None => {
                    proof {
                        let w = self@.take(i + 1);
                        assert(w.drop_last() =~= self@.take(i as int));
                        assert(!has_device(self@[i as int].1, id@));
                    }
                },
            }
            i = i + 1;
        }
        assert(self@.take(i as int) =~= self@);
        None
    }

    /// The first device with id `id`, topics taken in order.
    pub fn find_device(&self, id: &String) -> (r: Option<&Device>)
        ensures
            match locate_spec(self@, id@) {
                Some((ti, di)) => r is Some && r->0@ == self@[ti].1[di],
                None => r is None,
            },
            container_wf(self@),
    {
        proof { use_type_invariant(self); }
        match self.locate(id.as_str()) {
            Some((ti, di)) => Some(&self.topics[ti].devices[di]),
            None => None,
        }
    }

    fn set_device_at(&mut self, ti: usize, di: usize, d: Device)
        requires
            ti < old(self)@.len(),
            di < old(self)@[ti as int].1.len(),
            d@.device_id == old(self)@[ti as int].1[di as int].device_id,
        ensures
            final(self)@ == set_device(old(self)@, ti as int, di as int, d@),
    {
        proof { use_type_invariant(&*self); }
        let ghost v = self@;
        let mut topics: Vec<TopicDevices> = Vec::new();
        std::mem::swap(&mut topics, &mut self.topics);
        assert(topics@.map_values(|t: TopicDevices| t@) == v);
        let mut entry = topics.remove(ti);
        assert(entry@ == v[ti as int]);
        let _old = entry.devices.remove(di);
        entry.devices.insert(di, d);
        assert(entry@ =~= (v[ti as int].0, v[ti as int].1.update(di as int, d@)));
        topics.insert(ti, entry);
        assert(topics@.map_values(|t: TopicDevices| t@) =~= set_device(v, ti as int, di as int, d@));
        proof {
            let w = set_device(v, ti as int, di as int, d@);
            assert forall|i: int| 0 <= i < w.len() implies ids_distinct(#[trigger] w[i].1) by {
                if i == ti {
                    assert(ids_distinct(v[i].1));
                }
            }
        }
        self.topics = topics;
    }

    /// Applies an update received for device `update.device_id` under `update.topic`
    /// (see `update_device_spec`) and answers the updated device.
    pub fn update_device(&mut self, update: &MQTTUpdate) -> (r: Result<Device, UpdateError>)
        ensures
            (final(self)@, device_result_view(r)) == update_device_spec(
                old(self)@, update.topic@, update.device_id@, update.update_type, update.update_fields@),
            container_wf(final(self)@),
    {
        proof { use_type_invariant(&*self); }
        let ghost v = self@;
        let ti = match topic_pos(&self.topics, update.topic.as_str()) {
            Some(ti) => ti,
            None => {
                return Err(UpdateError::TopicNotFound);
            },
        };
        assert(v[ti as int] == self.topics@[ti as int]@);
        assert(v[ti as int].0 == update.topic@);
        assert(topic_index(v, update.topic@) == ti);
        let di = match device_pos(&self.topics[ti].devices, update.device_id.as_str()) {
            Some(di) => di,
            None => {
                return Err(UpdateError::DeviceNotFound);
            },
        };
        assert(v[ti as int].1[di as int] == self.topics@[ti as int].devices@[di as int]@);
        assert(v[ti as int].1[di as int].device_id == update.device_id@);
        assert(device_index(v[ti as int].1, update.device_id@) == di);
        let mut device = self.topics[ti].devices[di].duplicate();
        match update.update_type {
            DeviceUpdateType::CONN_CHANGE => {
                let connected = match update.update_fields.get("connected") {
                    Some(value) => match value.as_bool() {
                        Some(b) => b,
                        None => { return Err(UpdateError::NotABoolean); },
                    },
                    None => { return Err(UpdateError::MissingField); },
                };
                device.connected = connected;
            },
            DeviceUpdateType::ACTIVATION_CHANGE => {
                let activated = match update.update_fields.get("connected") {
                    Some(value) => match value.as_bool() {
                        Some(b) => b,
                        None => { return Err(UpdateError::NotABoolean); },
                    },
                    None => { return Err(UpdateError::MissingField); },
                };
                device.activated = activated;
            },
            DeviceUpdateType::VALUE_CHANGE => {
                let text = match update.update_fields.get("value") {
                    Some(value) => value.to_json_text(),
                    None => { return Err(UpdateError::MissingField); },
                };
                device.set_value(Some(text));
            },
            _ => {
                return Err(UpdateError::UnsupportedUpdate);
            },
        }
        let answer = device.duplicate();
        self.set_device_at(ti, di, device);
        proof { use_type_invariant(&*self); }
        Ok(answer)
    }

    /// Applies a client command to the first device with id `device_id` (see
    /// `command_spec`) and answers the device with the activation update to publish.
    pub fn apply_command(&mut self, device_id: &String, command: CommandType) -> (r: Result<(Device, MQTTUpdate), CommandError>)
        ensures
            final(self)@ == command_spec(old(self)@, device_id@, command).0,
            match command_spec(old(self)@, device_id@, command).1 {
                Ok(nd) => r is Ok && r->Ok_0.0@ == nd
                    && is_activation_update(r->Ok_0.1, device_id@, nd.topic, nd.activated),
                Err(e) => r == Err::<(Device, MQTTUpdate), CommandError>(e),
            },
            container_wf(final(self)@),
    {
        proof { use_type_invariant(&*self); }
        let (ti, di) = match self.locate(device_id.as_str()) {
            Some(p) => p,
            None => { return Err(CommandError::DeviceNotFound); },
        };
        let mut device = self.topics[ti].devices[di].duplicate();
        match command {
            CommandType::TOGGLE => device.toggle(),
            CommandType::ENABLE => device.activated = true,
            CommandType::DISABLE => device.activated = false,
            CommandType::UNKNOWN => { return Err(CommandError::UnknownCommand); },
        }
        let update = MQTTUpdate::activation(device_id.clone(), device.topic.clone(), device.activated);
        let answer = device.duplicate();
        self.set_device_at(ti, di, device);
        proof { use_type_invariant(&*self); }
        Ok((answer, update))
    }

    /// Applies a replacement device sent by a client (see `replace_spec`); answers whether
    /// a device with its id was found under its topic.
    pub fn replace_device(&mut self, device: &Device) -> (found: bool)
        ensures
            (final(self)@, found) == replace_spec(old(self)@, device@),
            container_wf(final(self)@),
    {
        proof { use_type_invariant(&*self); }
        let ghost v = self@;
        let ti = match topic_pos(&self.topics, device.topic.as_str()) {
            Some(ti) => ti,
            None => {
                let entry = TopicDevices { topic: device.topic.clone(), devices: Vec::new() };
                assert(entry@ =~= (device@.topic, Seq::<DeviceView>::empty()));
                let mut topics: Vec<TopicDevices> = Vec::new();
                std::mem::swap(&mut topics, &mut self.topics);
                assert(topics@.map_values(|t: TopicDevices| t@) == v);
                topics.push(entry);
                assert(topics@.map_values(|t: TopicDevices| t@) =~= v.push((device@.topic, Seq::<DeviceView>::empty())));
                self.topics = topics;
                self.topics.len() - 1
            },
        };
        let ghost v1 = self@;
        assert(v1[ti as int].0 == device@.topic);
        assert(topic_index(v1, device@.topic) == ti);
        let di = match device_pos(&self.topics[ti].devices, device.device_id.as_str()) {
            Some(di) => di,
            None => { return false; },
        };
        assert(v1[ti as int] == self.topics@[ti as int]@);
        assert(v1[ti as int].1[di as int] == self.topics@[ti as int].devices@[di as int]@);
        assert(v1[ti as int].1[di as int].device_id == device@.device_id);
        assert(device_index(v1[ti as int].1, device@.device_id) == di);
        let mut target = self.topics[ti].devices[di].duplicate();
        target.update(device);
        self.set_device_at(ti, di, target);
        proof { use_type_invariant(&*self); }
        true
    }

    /// The id and value of device `device_id` under `topic`, `null` standing for no value
    /// (see `value_spec`).
    pub fn get_value(&self, topic: &String, device_id: &String) -> (r: Result<(String, String), ValueError>)
        ensures
            match value_spec(self@, topic@, device_id@) {
                Ok((id, val)) => r is Ok && r->Ok_0.0@ == id && r->Ok_0.1@ == val,
                Err(e) => r == Err::<(String, String), ValueError>(e),
            },
            container_wf(self@),
    {
        proof { use_type_invariant(self); }
        let ti = match topic_pos(&self.topics, topic.as_str()) {
            Some(ti) => ti,
            None => { return Err(ValueError::TopicNotFound); },
        };
        assert(self@[ti as int] == self.topics@[ti as int]@);
        assert(self@[ti as int].0 == topic@);
        assert(topic_index(self@, topic@) == ti);
        let di = match device_pos(&self.topics[ti].devices, device_id.as_str()) {
            Some(di) => di,
            None => { return Err(ValueError::DeviceNotFound); },
        };
        assert(self@[ti as int].1[di as int] == self.topics@[ti as int].devices@[di as int]@);
        assert(self@[ti as int].1[di as int].device_id == device_id@);
        assert(device_index(self@[ti as int].1, device_id@) == di);
        let device = &self.topics[ti].devices[di];
        let value = match &device.value {
            Some(v) => v.clone(),
            None => owned("null"),
        };
        Ok((device.device_id.clone(), value))
    }

    /// Toggles every device whose id is among `ids` and answers, topic by topic, each
    /// toggled device with the activation update to publish for it.
    pub fn toggle_devices(&mut self, ids: &Vec<String>) -> (r: Vec<(Device, MQTTUpdate)>)
        ensures
            final(self)@ == toggle_matching(old(self)@, texts(ids@)),
            r@.map_values(|p: (Device, MQTTUpdate)| p.0@) == all_device_views(final(self)@).filter(id_among(texts(ids@))),
            forall|k: int| 0 <= k < r@.len() ==> is_activation_update(#[trigger] r@[k].1, r@[k].0@.device_id, r@[k].0@.topic, r@[k].0@.activated),
            container_wf(final(self)@),
    {
        proof { use_type_invariant(&*self); }
        let ghost v = self@;
        let ghost ts = texts(ids@);
        let ghost pr = id_among(ts);
        let ghost tv = toggle_matching(v, ts);
        let mut topics: Vec<TopicDevices> = Vec::new();
        std::mem::swap(&mut topics, &mut self.topics);
        assert(topics@.map_values(|t: TopicDevices| t@) == v);
        let mut r: Vec<(Device, MQTTUpdate)> = Vec::new();
        assert(tv.take(0) =~= Seq::<TopicView>::empty());
        assert(r@.map_values(|p: (Device, MQTTUpdate)| p.0@) =~= all_device_views(tv.take(0)).filter(pr));
        let mut i: usize = 0;
        while i < topics.len()
            invariant
                topics@.len() == v.len(),
                i <= v.len(),
                ts == texts(ids@),
                pr == id_among(ts),
                tv == toggle_matching(v, ts),
                forall|k: int| 0 <= k < i ==> #[trigger] topics@[k]@ == tv[k],
                forall|k: int| i <= k < v.len() ==> #[trigger] topics@[k]@ == v[k],
                r@.map_values(|p: (Device, MQTTUpdate)| p.0@) == all_device_views(tv.take(i as int)).filter(pr),
                forall|k: int| 0 <= k < r@.len() ==> is_activation_update(#[trigger] r@[k].1, r@[k].0@.device_id, r@[k].0@.topic, r@[k].0@.activated),
            decreases v.len() - i,
        {
            let ghost before_topics = topics@;
            let mut entry = topics.remove(i);
            let ghost e0 = entry@;
            assert(e0 == v[i as int]);
            let ghost base = r@.map_values(|p: (Device, MQTTUpdate)| p.0@);
            let ghost te = tv[i as int].1;
            assert(te == v[i as int].1.map_values(|d: DeviceView| toggle_if(d, ts)));
            assert(te.take(0) =~= Seq::<DeviceView>::empty());
            let mut j: usize = 0;
            while j < entry.devices.len()
                invariant
                    entry.devices@.len() == e0.1.len(),
                    entry.topic@ == e0.0,
                    j <= e0.1.len(),
                    e0 == v[i as int],
                    ts == texts(ids@),
                    pr == id_among(ts),
                    te == e0.1.map_values(|d: DeviceView| toggle_if(d, ts)),
                    forall|k: int| 0 <= k < j ==> #[trigger] entry.devices@[k]@ == te[k],
                    forall|k: int| j <= k < e0.1.len() ==> #[trigger] entry.devices@[k]@ == e0.1[k],
                    r@.map_values(|p: (Device, MQTTUpdate)| p.0@) == base + te.take(j as int).filter(pr),
                    forall|k: int| 0 <= k < r@.len() ==> is_activation_update(#[trigger] r@[k].1, r@[k].0@.device_id, r@[k].0@.topic, r@[k].0@.activated),
                decreases e0.1.len() - j,
            {
                let ghost before_devs = entry.devices@;
                let mut d = entry.devices.remove(j);
                assert(d@ == e0.1[j as int]);
                let ghost old_r = r@;
                assert(te.take(j + 1) =~= te.take(j as int).push(te[j as int]));
                proof { te.take(j as int).lemma_filter_push(te[j as int], pr); }
                if contains_text(ids, &d.device_id) {
                    d.toggle();
                    let upd = MQTTUpdate::activation(d.device_id.clone(), d.topic.clone(), d.activated);
                    r.push((d.duplicate(), upd));
                    assert(r@.map_values(|p: (Device, MQTTUpdate)| p.0@) =~= old_r.map_values(|p: (Device, MQTTUpdate)| p.0@).push(te[j as int]));
                } else {
                    assert(d@ == te[j as int]);
                }
                entry.devices.insert(j, d);
                assert forall|k: int| 0 <= k < j + 1 implies #[trigger] entry.devices@[k]@ == te[k] by {
                    if k < j { assert(entry.devices@[k] == before_devs[k]); }
                }
                assert forall|k: int| j + 1 <= k < e0.1.len() implies #[trigger] entry.devices@[k]@ == e0.1[k] by {
                    assert(entry.devices@[k] == before_devs[k]);
                }
                j = j + 1;
            }
            assert(entry@ =~= tv[i as int]);
            assert(te.take(j as int) =~= te);
            topics.insert(i, entry);
            proof {
                let w = tv.take(i + 1);
                assert(w.drop_last() =~= tv.take(i as int));
                assert(w.last() == tv[i as int]);
                assert(all_device_views(w) == all_device_views(tv.take(i as int)) + te);
                Seq::filter_distributes_over_add(all_device_views(tv.take(i as int)), te, pr);
            }
            assert forall|k: int| 0 <= k < i + 1 implies #[trigger] topics@[k]@ == tv[k] by {
                if k < i { assert(topics@[k] == before_topics[k]); }
            }
            assert forall|k: int| i + 1 <= k < v.len() implies #[trigger] topics@[k]@ == v[k] by {
                assert(topics@[k] == before_topics[k]);
            }
            i = i + 1;
        }
        assert(topics@.map_values(|t: TopicDevices| t@) =~= tv);
        assert(tv.take(i as int) =~= tv);
        proof {
            assert forall|a: int, b: int| 0 <= a < tv.len() && 0 <= b < tv.len() && a != b implies tv[a].0 != tv[b].0 by {}
            assert forall|a: int| 0 <= a < tv.len() implies ids_distinct(#[trigger] tv[a].1) by {
                assert(ids_distinct(v[a].1));
            }
        }
        self.topics = topics;
        r
    }

    /// Adds the devices of an announced list one after the other (see `upsert_spec`) and
    /// answers, for each, every device of the registry right after it was added; answers
    /// `None` and changes nothing when the message holds no list.
    pub fn add_to_device_list(&mut self, m_list: &MQTTList) -> (r: Option<Vec<Vec<Device>>>)
        ensures
            match m_list.device_list {
                None => r is None && final(self)@ == old(self)@,
                Some(list) => {
                    let xs = list@.map_values(|d: Device| d@);
                    &&& final(self)@ == upsert_all(old(self)@, xs)
                    &&& r matches Some(snaps) && snaps@.len() == xs.len()
                    &&& forall|k: int| 0 <= k < xs.len() ==> (#[trigger] r->0@[k])@.map_values(|d: Device| d@)
                        == all_device_views(upsert_all(old(self)@, xs.take(k + 1)))
                },
            },
            container_wf(final(self)@),
    {
        proof { use_type_invariant(&*self); }
        let list = match &m_list.device_list {
            Some(list) => list,
            None => { return None; },
        };
        let ghost v0 = self@;
        let ghost xs = list@.map_values(|d: Device| d@);
        let mut snaps: Vec<Vec<Device>> = Vec::new();
        let mut k: usize = 0;
        assert(xs.take(0) =~= Seq::<DeviceView>::empty());
        while k < list.len()
            invariant
                k <= list@.len(),
                xs == list@.map_values(|d: Device| d@),
                self@ == upsert_all(v0, xs.take(k as int)),
                snaps@.len() == k,
                forall|j: int| 0 <= j < k ==> (#[trigger] snaps@[j])@.map_values(|d: Device| d@)
                    == all_device_views(upsert_all(v0, xs.take(j + 1))),
            decreases list@.len() - k,
        {
            self.upsert_device(&list[k]);
            assert(xs.take(k + 1).drop_last() =~= xs.take(k as int));
            assert(xs.take(k + 1).last() == list@[k as int]@);
            let snap = self.all_devices();
            snaps.push(snap);
            k = k + 1;
        }
        assert(xs.take(k as int) =~= xs);
        proof { use_type_invariant(&*self); }
        Some(snaps)
    }

    /// Every device of the registry, topic by topic.
    pub fn all_devices(&self) -> (r: Vec<Device>)
        ensures
            r@.map_values(|d: Device| d@) == all_device_views(self@),
            container_wf(self@),
    {
        proof { use_type_invariant(self); }
        let mut r: Vec<Device> = Vec::new();
        let mut i: usize = 0;
        while i < self.topics.len()
            invariant
                i <= self.topics@.len(),
                r@.map_values(|d: Device| d@) == all_device_views(self@.take(i as int)),
            decreases self.topics@.len() - i,
        {
            let devices = &self.topics[i].devices;
            let ghost before = r@.map_values(|d: Device| d@);
            let mut j: usize = 0;
            while j < devices.len()
                invariant
                    j <= devices@.len(),
                    i < self.topics@.len(),
                    devices == &self.topics@[i as int].devices,
                    r@.map_values(|d: Device| d@) == before + devices@.map_values(|d: Device| d@).take(j as int),
                decreases devices@.len() - j,
            {
                let ghost old_r = r@;
                r.push(devices[j].duplicate());
                assert(r@.map_values(|d: Device| d@) =~= old_r.map_values(|d: Device| d@).push(devices@[j as int]@));
                assert(devices@.map_values(|d: Device| d@).take(j + 1) =~= devices@.map_values(|d: Device| d@).take(j as int).push(devices@[j as int]@));
                assert(r@.map_values(|d: Device| d@) =~= before + devices@.map_values(|d: Device| d@).take(j + 1));
                j = j + 1;
            }
            assert(self@.take(i + 1).drop_last() =~= self@.take(i as int));
            assert(devices@.map_values(|d: Device| d@).take(j as int) =~= self@[i as int].1);
            i = i + 1;
        }
        assert(self@.take(i as int) =~= self@);
        r
    }
}

} // verus!
