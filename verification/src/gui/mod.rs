//! State of the engine's desktop interface, apart from drawing.
pub mod app;
pub mod bottom_panel;
pub mod charts;
pub mod live_buffer;
pub mod lua_console;
pub mod panels;
pub mod replay;
pub mod replay_log;
pub mod robot;
pub mod sidebar;
pub mod toolbar;
pub mod types;
