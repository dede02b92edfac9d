# smart_home

The verified core of a small smart-home hub.

- `src/` (Verus): the device model and per-type id counters, the device registry
  grouped by MQTT topic (adding, updating, commanding, toggling and reading devices),
  update messages and their fields, websocket message kinds, scenario registration,
  timed and sensor-conditional triggers, the simulator's decisions, and the planning
  of timed scenarios. Contracts are stated over views (`Seq`, `Map`, text as
  `Seq<char>`); laws are public proof functions next to the functions they relate.
- `tests/`: executable tests of the library.
- `app/`: the program around it: MQTT client, websocket server, simulated devices
  thread, background scenario tasks, and serializable copies of the message types.

Two collections are held in types of the library's own:

- The registry of devices by topic is a `Vec` of topic entries (`DeviceContainer`),
  with the invariant that topics are distinct and ids are distinct within a topic.
  A `HashMap` keyed by `String` is accepted by Verus but nothing about lookups
  in it can be proved, and a `Vec` also fixes the order of topics.
- The per-type id counters are three `usize` fields (`DeviceCounters`). A `HashMap`
  keyed by the derived `Hash`/`Eq` of `DeviceType` has the same problem, and
  `AtomicUsize` is not needed once the counters are passed by `&mut`.
- The fields of an update message are a `FieldMap` of `FieldValue`s, since
  `serde_json::Map` can only hold `serde_json::Value`.

The JSON text of a string field (`text::json_quote`) is written in `src/` and proved
against its whole rule (`json_string_text`: quote, backslash and control characters
escaped as `serde_json` escapes them, every other character as it is); a test compares
it with `serde_json`'s own output.
