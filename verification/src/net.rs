pub mod client;
pub mod device_update;
pub mod simmed;
