pub mod sensors;
pub mod traits;
