use vstd::prelude::*;
use crate::text::text_eq;

verus! {

/// What an MQTT message received by the hub carries, told by its content type.
#[derive(Clone, Copy, Debug, PartialEq, Eq, Structural)]
pub enum MessageKind {
    /// An update of one device (`device_update`).
    DeviceUpdate,
    /// A list of devices to register (`add_device`).
    AddDevice,
    /// Anything else.
    Unknown,
}

/// The kind of message a content type announces.
pub open spec fn message_kind_of(msg_type: Seq<char>) -> MessageKind {
    if msg_type == "device_update"@ {
        MessageKind::DeviceUpdate
    } else if msg_type == "add_device"@ {
        MessageKind::AddDevice
    } else {
        MessageKind::Unknown
    }
}

/// Tells what a received message carries from its content type.
pub fn classify_message(msg_type: &str) -> (k: MessageKind)
    ensures
        k == message_kind_of(msg_type@),
{
    if text_eq(msg_type, "device_update") {
        MessageKind::DeviceUpdate
    } else if text_eq(msg_type, "add_device") {
        MessageKind::AddDevice
    } else {
        MessageKind::Unknown
    }
}

} // verus!
