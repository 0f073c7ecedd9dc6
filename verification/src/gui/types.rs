//! Requests the interface sends to the engine, and script status reports
//! the engine sends back.
use crate::gui::sidebar::SidebarPanel;
use crate::gui::toolbar::ScriptStatus;
use crate::gui::charts::ChartsEffect;
use vstd::prelude::*;

verus! {

pub struct LuaScriptStatusUpdate {
    pub status: ScriptStatus,
    pub script_path: Option<String>,
}

/// A request from the interface to the engine.
pub enum EngineRequest {
    UpdateVisionConnection { ip: String, port: u16 },
    UpdateRadioConfig { use_radio: bool, port_name: String, baud_rate: u32 },
    /// Tracker settings as typed; the engine reads the noise values as numbers
    /// and falls back to its defaults for text that is not a number.
    UpdateTrackerConfig {
        enabled: bool,
        process_noise_p: String,
        process_noise_v: String,
        measurement_noise: String,
    },
    StartRecording { filename: String },
    StopRecording,
    SendKickCommand { id: i32, team: i32 },
    LoadScript { path: String },
    PauseScript,
    ResumeScript,
}

/// What the interface does after handling a message.
pub enum UiAction {
    Engine(EngineRequest),
    /// Drive a robot from the keyboard. Speeds are the key contributions
    /// (±2 for forward and sideways speed, ±4 for turning) before the panel's scale factors
    /// are applied; near-zero scaled speeds are not sent.
    DriveRobot { id: i32, team: i32, vx: i32, vy: i32, omega: i32 },
    OpenPanelWindow(SidebarPanel),
    ClosePanelWindow(SidebarPanel),
    ClosePanelWindows(Vec<SidebarPanel>),
    /// Close every window and leave the application.
    Exit,
    PickScriptFile,
    PickReplayFile,
    ReplayLoadFailed(String),
    ClearRobotTrace,
    ClearLuaDrawings,
    /// Scroll the Lua console to its newest line.
    ScrollConsoleToEnd,
    /// Show the replay frame at the replay's current index.
    ShowReplayFrame,
    /// Show an empty field (replay mode without frames).
    ShowEmptyField,
    Charts(ChartsEffect),
}

} // verus!
