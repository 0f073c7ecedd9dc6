//! Verified core of a RoboCup Small Size League engine: referee state,
//! radio packet encoding, GUI panel state machines, replay timeline and
//! script control.
pub mod console;
pub mod gui;
pub mod log_writer;
pub mod logger;
pub mod packet;
pub mod path_planner;
pub mod referee;
pub mod script;
pub mod text;
pub mod vision;
