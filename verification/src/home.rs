pub mod house;
pub mod room;
pub mod scenarios;
