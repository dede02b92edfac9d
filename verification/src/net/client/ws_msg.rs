use vstd::prelude::*;
use crate::automatisation::voice_recognition::ScenarioTypes;
use crate::device::Device;
use crate::text::{owned, text_eq};

verus! {

/// A message exchanged with websocket clients: its kind and its JSON payload.
pub struct WsMessage {
    pub message_type: WsMessageType,
    pub payload: String,
}

/// The kinds of websocket message.
#[allow(non_camel_case_types)]
#[derive(Clone, Copy, Debug, PartialEq, Eq, Structural)]
pub enum WsMessageType {
    VALUE_GET,
    DEVICE_CMD,
    DEVICE_UPDATE,
    SCENARIO_UPDATE,
    DEVICE_LIST,
    VALUE,
    UNKNOWN,
}

/// The name under which a message kind travels.
pub open spec fn message_type_name(t: WsMessageType) -> Seq<char> {
    match t {
        WsMessageType::VALUE_GET => "VALUE_GET"@,
        WsMessageType::DEVICE_CMD => "DEVICE_CMD"@,
        WsMessageType::DEVICE_UPDATE => "DEVICE_UPDATE"@,
        WsMessageType::SCENARIO_UPDATE => "SCENARIO_UPDATE"@,
        WsMessageType::DEVICE_LIST => "DEVICE_LIST"@,
        WsMessageType::VALUE => "VALUE"@,
        WsMessageType::UNKNOWN => "UNKNOWN"@,
    }
}

/// The message kind a name stands for; any other text is `UNKNOWN`.
pub open spec fn message_type_of(s: Seq<char>) -> WsMessageType {
    if s == "VALUE_GET"@ {
        WsMessageType::VALUE_GET
    } else if s == "DEVICE_CMD"@ {
        WsMessageType::DEVICE_CMD
    } else if s == "DEVICE_UPDATE"@ {
        WsMessageType::DEVICE_UPDATE
    } else if s == "SCENARIO_UPDATE"@ {
        WsMessageType::SCENARIO_UPDATE
    } else if s == "DEVICE_LIST"@ {
        WsMessageType::DEVICE_LIST
    } else if s == "VALUE"@ {
        WsMessageType::VALUE
    } else {
        WsMessageType::UNKNOWN
    }
}

impl WsMessageType {
    /// The name of the message kind (the conversion into `String`).
    pub fn into_string(self) -> (s: String)
        ensures
            s@ == message_type_name(self),
    {
        match self {
            WsMessageType::VALUE_GET => owned("VALUE_GET"),
            WsMessageType::DEVICE_CMD => owned("DEVICE_CMD"),
            WsMessageType::DEVICE_UPDATE => owned("DEVICE_UPDATE"),
            WsMessageType::SCENARIO_UPDATE => owned("SCENARIO_UPDATE"),
            WsMessageType::DEVICE_LIST => owned("DEVICE_LIST"),
            WsMessageType::VALUE => owned("VALUE"),
            _ => owned("UNKNOWN"),
        }
    }
}

impl From<String> for WsMessageType {
    fn from(str: String) -> (t: WsMessageType) {
        let s = str.as_str();
        if text_eq(s, "VALUE_GET") {
            WsMessageType::VALUE_GET
        } else if text_eq(s, "DEVICE_CMD") {
            WsMessageType::DEVICE_CMD
        } else if text_eq(s, "DEVICE_UPDATE") {
            WsMessageType::DEVICE_UPDATE
        } else if text_eq(s, "SCENARIO_UPDATE") {
            WsMessageType::SCENARIO_UPDATE
        } else if text_eq(s, "DEVICE_LIST") {
            WsMessageType::DEVICE_LIST
        } else if text_eq(s, "VALUE") {
            WsMessageType::VALUE
        } else {
            WsMessageType::UNKNOWN
        }
    }
}

impl vstd::std_specs::convert::FromSpecImpl<String> for WsMessageType {
    open spec fn obeys_from_spec() -> bool {
        true
    }

    open spec fn from_spec(v: String) -> WsMessageType {
        message_type_of(v@)
    }
}

proof fn message_type_names_distinct()
    ensures
        "VALUE_GET"@.len() == 9,
        "DEVICE_CMD"@.len() == 10,
        "DEVICE_UPDATE"@.len() == 13,
        "SCENARIO_UPDATE"@.len() == 15,
        "DEVICE_LIST"@.len() == 11,
        "VALUE"@.len() == 5,
        "UNKNOWN"@.len() == 7,
{
    reveal_strlit("VALUE_GET");
    reveal_strlit("DEVICE_CMD");
    reveal_strlit("DEVICE_UPDATE");
    reveal_strlit("SCENARIO_UPDATE");
    reveal_strlit("DEVICE_LIST");
    reveal_strlit("VALUE");
    reveal_strlit("UNKNOWN");
}

/// Reading back the name of a message kind gives that kind.
pub proof fn message_type_round_trip(t: WsMessageType)
    ensures
        message_type_of(message_type_name(t)) == t,
{
    reveal_strlit("VALUE_GET");
    reveal_strlit("DEVICE_CMD");
    reveal_strlit("DEVICE_UPDATE");
    reveal_strlit("SCENARIO_UPDATE");
    reveal_strlit("DEVICE_LIST");
    reveal_strlit("VALUE");
    reveal_strlit("UNKNOWN");
    message_type_names_distinct();
}

/// A text read as a message kind and written back gives the text again exactly when it
/// is the name of a kind.
pub proof fn message_type_name_round_trip(s: Seq<char>)
    ensures
        (message_type_name(message_type_of(s)) == s) <==> (exists|t: WsMessageType| message_type_name(t) == s),
{
    reveal_strlit("VALUE_GET");
    reveal_strlit("DEVICE_CMD");
    reveal_strlit("DEVICE_UPDATE");
    reveal_strlit("SCENARIO_UPDATE");
    reveal_strlit("DEVICE_LIST");
    reveal_strlit("VALUE");
    reveal_strlit("UNKNOWN");
    if message_type_name(message_type_of(s)) == s {
        assert(message_type_name(message_type_of(s)) == s);
    }
    if exists|t: WsMessageType| message_type_name(t) == s {
        let t = choose|t: WsMessageType| message_type_name(t) == s;
        message_type_round_trip(t);
    }
}

/// What a client command asks of a device.
#[derive(Clone, Copy, Debug, PartialEq, Eq, Structural)]
pub enum CommandType {
    TOGGLE,
    ENABLE,
    DISABLE,
    UNKNOWN,
}

/// The name under which a command travels.
pub open spec fn command_name(c: CommandType) -> Seq<char> {
    match c {
        CommandType::TOGGLE => "TOGGLE"@,
        CommandType::ENABLE => "ENABLE"@,
        CommandType::DISABLE => "DISABLE"@,
        CommandType::UNKNOWN => "UNKNOWN"@,
    }
}

/// The command a name stands for; any other text is `UNKNOWN`.
pub open spec fn command_of(s: Seq<char>) -> CommandType {
    if s == "TOGGLE"@ {
        CommandType::TOGGLE
    } else if s == "ENABLE"@ {
        CommandType::ENABLE
    } else if s == "DISABLE"@ {
        CommandType::DISABLE
    } else {
        CommandType::UNKNOWN
    }
}

impl CommandType {
    /// The name of the command (the conversion into `String`).
    pub fn into_string(self) -> (s: String)
        ensures
            s@ == command_name(self),
    {
        match self {
            CommandType::TOGGLE => owned("TOGGLE"),
            CommandType::ENABLE => owned("ENABLE"),
            CommandType::DISABLE => owned("DISABLE"),
            _ => owned("UNKNOWN"),
        }
    }
}

impl From<String> for CommandType {
    fn from(str: String) -> (c: CommandType) {
        let s = str.as_str();
        if text_eq(s, "TOGGLE") {
            CommandType::TOGGLE
        } else if text_eq(s, "ENABLE") {
            CommandType::ENABLE
        } else if text_eq(s, "DISABLE") {
            CommandType::DISABLE
        } else {
            CommandType::UNKNOWN
        }
    }
}

impl vstd::std_specs::convert::FromSpecImpl<String> for CommandType {
    open spec fn obeys_from_spec() -> bool {
        true
    }

    open spec fn from_spec(v: String) -> CommandType {
        command_of(v@)
    }
}

/// Reading back the name of a command gives that command.
pub proof fn command_round_trip(c: CommandType)
    ensures
        command_of(command_name(c)) == c,
{
    reveal_strlit("TOGGLE");
    reveal_strlit("ENABLE");
    reveal_strlit("DISABLE");
    reveal_strlit("UNKNOWN");
    assert("TOGGLE"@[0] != "ENABLE"@[0]);
    assert("DISABLE"@[0] != "UNKNOWN"@[0]);
    assert("TOGGLE"@.len() != "DISABLE"@.len());
    assert("ENABLE"@.len() != "DISABLE"@.len());
}

/// A text read as a command and written back gives the text again exactly when it is
/// the name of a command.
pub proof fn command_name_round_trip(s: Seq<char>)
    ensures
        (command_name(command_of(s)) == s) <==> (exists|c: CommandType| command_name(c) == s),
{
    reveal_strlit("TOGGLE");
    reveal_strlit("ENABLE");
    reveal_strlit("DISABLE");
    reveal_strlit("UNKNOWN");
    if exists|c: CommandType| command_name(c) == s {
        let c = choose|c: CommandType| command_name(c) == s;
        command_round_trip(c);
    }
}

/// Payload of a device update sent by a client.
pub struct PayloadDeviceUpdate {
    pub device: Device,
}

/// Payload of a device command sent by a client.
pub struct PayloadDeviceCommand {
    pub device_id: String,
    pub command: CommandType,
}

/// Payload listing devices.
pub struct PayloadDeviceList {
    pub device_list: Vec<Device>,
}

/// Payload asking for the value of one device.
pub struct PayloadGetValue {
    pub topic: String,
    pub device_id: String,
}

/// Payload answering a value request.
pub struct PayloadGetResponse {
    pub device_id: String,
    pub value: Option<String>,
}

/// Payload of a scenario update: the scenario kind and its own JSON payload.
pub struct PayloadScenarioUpdate {
    pub scenario_type: ScenarioTypes,
    pub scenario_payload: String,
}

/// Payload of a timed-toggle scenario: the device and the time, in RFC 3339.
pub struct PayloadScenarioTimedToggle {
    pub sensor_id: String,
    pub time: String,
}

/// Payload of a sensor-conditional scenario.
pub struct PayloadScenarioSensorConditional {
    pub sensor_id: String,
    pub treshold: String,
}

/// Payload of a read scenario.
pub struct PayloadScenarioRead {
    pub device_id: String,
    pub key_to_read: String,
}

} // verus!
