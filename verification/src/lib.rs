//! Device bookkeeping, message rules and scenario logic of a small smart-home hub.
//!
//! The hub keeps a registry of devices grouped by MQTT topic, applies updates and
//! commands that arrive over MQTT or a websocket, and runs simple automation
//! scenarios (timed toggles and sensor-conditional triggers).
pub mod automatisation;
pub mod container;
pub mod device;
pub mod devices;
pub mod dispatch;
pub mod home;
pub mod net;
pub mod text;
pub mod typedef;
