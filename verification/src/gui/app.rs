//! Decisions of the engine's interface: how each message changes the
//! interface state and what the interface asks for in return (engine
//! requests, windows to open or close, frames to show).
//!
//! Drawing, windows, file dialogs, timers and the channels to the engine
//! are handled by the caller, which performs the returned actions.
use crate::gui::bottom_panel::{
    BottomPanel, BottomPanelMessage, bottom_panel_initial, decrement_robot_id, increment_robot_id, next_robot_id,
    previous_robot_id, robot_id_input, sanitize_robot_id,
};
use crate::gui::charts::{ChartsMessage, ChartsPanel, charts_step};
use crate::gui::lua_console::{DEFAULT_MAX_LINES, LuaConsolePanel, keep_last, min_usize};
use crate::gui::panels::{
    ControlMessage, ControlMode, ControlPanel, KalmanMessage, KalmanPanel, RadioMessage,
    RadioPanel, RecordingMessage, RecordingPanel, Team, VisionMessage, VisionPanel, control_default,
    control_step, kalman_default, kalman_step, parsed_i32_or_zero, radio_default, radio_step,
    recording_default, recording_step, team_id, vision_default, vision_step,
};
use crate::gui::replay::{ReplayState, ReplayView};
use crate::gui::sidebar::{Sidebar, SidebarMessage, SidebarPanel};
use crate::gui::toolbar::{ScriptStatus, Toolbar, ToolbarMessage, toolbar_initial};
use crate::gui::types::{EngineRequest, LuaScriptStatusUpdate, UiAction};
use crate::text::{i32_to_decimal, parse_int_spec, parse_u32, signed_decimal, trimmed};
use vstd::prelude::*;
use vstd::string::*;

verus! {

/// A message to the interface.
pub enum Message {
    Sidebar(SidebarMessage),
    Toolbar(ToolbarMessage),
    BottomPanel(BottomPanelMessage),
    Vision(VisionMessage),
    Radio(RadioMessage),
    Kalman(KalmanMessage),
    Recording(RecordingMessage),
    Control(ControlMessage),
    Charts(ChartsMessage),
    /// Periodic tick outside replay mode: milliseconds since the last vision
    /// packet, and whether the packets-per-second sparkline is due a sample.
    Tick { millis_since_vision: u64, sparkline_due: bool },
    /// Periodic tick in replay mode, with the wall time since the last one.
    ReplayTick { delta_ms: u64 },
    /// A vision update arrived; `push_sparkline` when it is the first of a due batch.
    VisionReceived { pps: u32, push_sparkline: bool },
    ScriptStatus(LuaScriptStatusUpdate),
    /// A line the running script printed.
    LuaLogLine(String),
    ScriptFileSelected(Option<String>),
    ReplayFilePick,
    /// The replay file at `path` was read: frame timestamps, or the error.
    ReplayFileLoaded { path: String, frames: Result<Vec<u64>, String> },
    ReplayPlay,
    ReplayPause,
    ReplaySeek(u32),
    /// A key went down; the text of the key.
    KeyPressed(String),
    KeyReleased(String),
    PanelWindowOpened(SidebarPanel),
    PanelWindowClosed(SidebarPanel),
    MainWindowClosed,
}

pub struct EngineApp {
    pub sidebar: Sidebar,
    pub toolbar: Toolbar,
    pub bottom_panel: BottomPanel,
    pub vision_panel: VisionPanel,
    pub radio_panel: RadioPanel,
    pub kalman_panel: KalmanPanel,
    pub recording_panel: RecordingPanel,
    pub control_panel: ControlPanel,
    pub charts_panel: ChartsPanel,
    pub lua_console: LuaConsolePanel,
    /// Panels shown in their own window, in the order they were opened.
    pub open_panels: Vec<SidebarPanel>,
    /// Keys held down (lower-case), without repetition.
    pub key_chars: Vec<char>,
    pub kick_key_was_down: bool,
    pub replay: ReplayState,
    pub vision_connected: bool,
    pub show_velocities: bool,
    /// Robot highlighted on the field: (id, team).
    pub highlight_robot: Option<(u32, i32)>,
}

/// ASCII lower case of `c`.
pub open spec fn ascii_lower(c: char) -> char {
    if 'A' <= c && c <= 'Z' {
        ((c as u32) + 32) as char
    } else {
        c
    }
}

/// The key a key text stands for: its first character in ASCII lower case,
/// or a space for empty text.
pub open spec fn key_char(key: Seq<char>) -> char {
    if key.len() > 0 { ascii_lower(key[0]) } else { ' ' }
}

/// Messages that are handled in replay mode; all others are ignored there.
pub open spec fn allowed_in_replay(msg: Message) -> bool {
    ||| msg matches Message::Sidebar(SidebarMessage::ToggleReplayMode)
    ||| msg is ReplayFilePick
    ||| msg is ReplayFileLoaded
    ||| msg is ReplayPlay
    ||| msg is ReplayPause
    ||| msg is ReplaySeek
    ||| msg is Tick
    ||| msg is ReplayTick
    ||| msg is KeyPressed
    ||| msg is KeyReleased
    ||| msg is PanelWindowOpened
    ||| msg is PanelWindowClosed
    ||| msg is MainWindowClosed
}

/// Keyboard driving: +2 forward for `w`, -2 for `s`; +2 left for `a`, -2
/// for `d`; +4 counter-clockwise for `q`, -4 for `e`.
pub open spec fn key_axis(keys: Seq<char>, plus: char, minus: char, step: int) -> int {
    (if keys.contains(plus) { step } else { 0 }) + (if keys.contains(minus) { -step } else { 0 })
}

fn lower(c: char) -> (r: char)
    ensures
        r == ascii_lower(c),
{
    if 'A' <= c && c <= 'Z' {
        let b = (c as u8) + 32;
        b as char
    } else {
        c
    }
}

fn key_of(key: &str) -> (c: char)
    ensures
        c == key_char(key@),
{
    if key.unicode_len() > 0 {
        lower(key.get_char(0))
    } else {
        ' '
    }
}

fn contains_char(v: &Vec<char>, c: char) -> (b: bool)
    ensures
        b == v@.contains(c),
{
    let mut i: usize = 0;
    while i < v.len()
        invariant
            i <= v@.len(),
            forall|k: int| 0 <= k < i ==> v@[k] != c,
        decreases v@.len() - i,
    {
        if v[i] == c {
            assert(v@[i as int] == c);
            return true;
        }
        i += 1;
    }
    false
}

fn index_of_panel(v: &Vec<SidebarPanel>, p: SidebarPanel) -> (i: Option<usize>)
    ensures
        match i {
            Some(k) => k < v@.len() && v@[k as int] == p,
            None => !v@.contains(p),
        },
{
    let mut i: usize = 0;
    while i < v.len()
        invariant
            i <= v@.len(),
            forall|k: int| 0 <= k < i ==> v@[k] != p,
        decreases v@.len() - i,
    {
        if v[i] == p {
            return Some(i);
        }
        i += 1;
    }
    None
}

fn parse_u32_or_zero(s: &str) -> (v: u32)
    ensures
        v == (match parse_int_spec(s@, 0, u32::MAX as int, false) {
            Some(x) => x,
            None => 0,
        }),
{
    match parse_u32(s) {
        Some(v) => v,
        None => 0,
    }
}

/// Removes every occurrence of `p` from `v`.
fn remove_panel(v: &mut Vec<SidebarPanel>, p: SidebarPanel)
    ensures
        forall|q: SidebarPanel| #[trigger] final(v)@.contains(q) <==> (old(v)@.contains(q) && q != p),
{
    let mut i: usize = 0;
    let ghost start = v@;
    while i < v.len()
        invariant
            i <= v@.len(),
            forall|k: int| 0 <= k < i ==> v@[k] != p,
            forall|q: SidebarPanel| q != p ==> (#[trigger] v@.contains(q) <==> start.contains(q)),
            forall|q: SidebarPanel| #[trigger] v@.contains(q) ==> start.contains(q),
        decreases v@.len() - i,
    {
        if v[i] == p {
            let ghost before = v@;
            v.remove(i);
            assert forall|q: SidebarPanel| q != p implies (#[trigger] v@.contains(q)
                <==> before.contains(q)) by {
                if before.contains(q) {
                    let k = choose|k: int| 0 <= k < before.len() && before[k] == q;
                    if k < i {
                        assert(v@[k] == q);
                    } else {
                        assert(k != i);
                        assert(v@[k - 1] == q);
                    }
                }
                if v@.contains(q) {
                    let k = choose|k: int| 0 <= k < v@.len() && v@[k] == q;
                    if k < i {
                        assert(before[k] == q);
                    } else {
                        assert(before[k + 1] == q);
                    }
                }
            }
            assert forall|q: SidebarPanel| #[trigger] v@.contains(q) implies start.contains(q) by {
                let k = choose|k: int| 0 <= k < v@.len() && v@[k] == q;
                if k < i {
                    assert(before[k] == q);
                } else {
                    assert(before[k + 1] == q);
                }
                assert(before.contains(q));
            }
        } else {
            i += 1;
        }
    }
    assert forall|q: SidebarPanel| #[trigger] v@.contains(q) implies q != p by {
        let k = choose|k: int| 0 <= k < v@.len() && v@[k] == q;
        assert(v@[k] != p);
    }
}


/// The u32 value of `s`, or 0 when it is not one.
pub open spec fn u32_or_zero(s: Seq<char>) -> int {
    match parse_int_spec(s, 0, u32::MAX as int, false) {
        Some(x) => x,
        None => 0,
    }
}

/// The actions that carry `req` to the engine, if any.
pub open spec fn engine_actions(req: Option<EngineRequest>) -> Seq<UiAction> {
    match req {
        Some(r) => seq![UiAction::Engine(r)],
        None => Seq::empty(),
    }
}

/// The engine request among `actions`, when they are a single one.
pub open spec fn sole_request(actions: Seq<UiAction>) -> Option<EngineRequest> {
    if actions.len() == 1 && actions[0] is Engine {
        Some(actions[0]->Engine_0)
    } else {
        None
    }
}

/// `actions` carries exactly one engine request, or none.
pub open spec fn at_most_one_request(actions: Seq<UiAction>) -> bool {
    actions == engine_actions(sole_request(actions))
}

/// The interface after a sidebar message.
pub open spec fn sidebar_step(old: EngineApp, new: EngineApp, m: SidebarMessage, actions: Seq<UiAction>) -> bool {
    match m {
        SidebarMessage::ToggleReplayMode => {
            let entering = !old.replay.enabled;
            &&& new.replay == ReplayState { enabled: entering, is_playing: false, ..old.replay }
            &&& if entering {
                &&& new == EngineApp {
                    replay: new.replay,
                    open_panels: new.open_panels,
                    sidebar: new.sidebar,
                    lua_console: new.lua_console,
                    key_chars: new.key_chars,
                    kick_key_was_down: new.kick_key_was_down,
                    ..old
                }
                &&& actions.len() == 1
                &&& actions[0] matches UiAction::ClosePanelWindows(v) && v@ == old.open_panels@
                &&& new.open_panels@.len() == 0
                &&& new.sidebar.active_panel is None
                &&& !new.lua_console.is_open()
                &&& new.lua_console.lines() == old.lua_console.lines()
                &&& new.lua_console.capacity() == old.lua_console.capacity()
                &&& new.key_chars@.len() == 0
                &&& !new.kick_key_was_down
            } else {
                new == EngineApp { replay: new.replay, ..old } && actions.len() == 0
            }
        },
        SidebarMessage::TogglePanel(p) => if p == SidebarPanel::LuaConsole {
            &&& new == EngineApp { lua_console: new.lua_console, ..old }
            &&& new.lua_console.is_open() == !old.lua_console.is_open()
            &&& new.lua_console.lines() == old.lua_console.lines()
            &&& new.lua_console.capacity() == old.lua_console.capacity()
            &&& actions.len() == 0
        } else if old.open_panels@.contains(p) {
            &&& new == EngineApp { open_panels: new.open_panels, sidebar: new.sidebar, ..old }
            &&& forall|q: SidebarPanel| #[trigger] new.open_panels@.contains(q) <==> (
                old.open_panels@.contains(q) && q != p)
            &&& new.sidebar.active_panel == (if old.sidebar.active_panel == Some(p) {
                None
            } else {
                old.sidebar.active_panel
            })
            &&& actions == seq![UiAction::ClosePanelWindow(p)]
        } else {
            &&& new == EngineApp { open_panels: new.open_panels, sidebar: new.sidebar, ..old }
            &&& new.open_panels@ == old.open_panels@.push(p)
            &&& new.sidebar.active_panel == Some(p)
            &&& actions == seq![UiAction::OpenPanelWindow(p)]
        },
    }
}

/// The interface after a toolbar message: only requests, no change.
pub open spec fn toolbar_step(old: EngineApp, new: EngineApp, m: ToolbarMessage, actions: Seq<UiAction>) -> bool {
    &&& new == old
    &&& match m {
        ToolbarMessage::LoadScript => actions == seq![UiAction::PickScriptFile],
        ToolbarMessage::ToggleScript => if old.toolbar.script_status == ScriptStatus::Running {
            actions == seq![UiAction::Engine(EngineRequest::PauseScript)]
        } else if old.toolbar.script_status != ScriptStatus::Idle {
            actions == seq![UiAction::Engine(EngineRequest::ResumeScript)]
        } else {
            actions.len() == 0
        },
        ToolbarMessage::ReloadScript => if old.toolbar.script_path@.len() > 0 {
            &&& at_most_one_request(actions)
            &&& sole_request(actions) matches Some(EngineRequest::LoadScript { path })
            &&& path@ == old.toolbar.script_path@
        } else {
            actions.len() == 0
        },
    }
}

/// The robot highlighted after the selector shows `id` for `team`, when
/// highlighting is on.
pub open spec fn highlight_for(on: bool, id: int, team: Team, previous: Option<(u32, i32)>) -> Option<(u32, i32)> {
    if on {
        Some((id as u32, team_id(team) as i32))
    } else {
        previous
    }
}

/// The interface after a bottom-bar message.
pub open spec fn bottom_panel_step(old: EngineApp, new: EngineApp, m: BottomPanelMessage, actions: Seq<UiAction>) -> bool {
    let bp = old.bottom_panel;
    match m {
        BottomPanelMessage::SetTrace(v) => {
            &&& new == EngineApp { bottom_panel: new.bottom_panel, ..old }
            &&& new.bottom_panel == BottomPanel { trace_on: v, ..bp }
            &&& actions == seq![UiAction::ClearRobotTrace]
        },
        BottomPanelMessage::SetVectors(v) => {
            &&& new == EngineApp { bottom_panel: new.bottom_panel, show_velocities: v, ..old }
            &&& new.bottom_panel == BottomPanel { vectors_on: v, ..bp }
            &&& actions.len() == 0
        },
        BottomPanelMessage::SetHighlight(v) => {
            &&& new == EngineApp { bottom_panel: new.bottom_panel, highlight_robot: new.highlight_robot, ..old }
            &&& new.bottom_panel == BottomPanel { highlight_on: v, ..bp }
            &&& new.highlight_robot == highlight_for(
                v,
                u32_or_zero(bp.control_robot_id@),
                bp.control_team,
                None,
            )
            &&& actions.len() == 0
        },
        BottomPanelMessage::SetManualControl(v) => {
            &&& new == EngineApp { bottom_panel: new.bottom_panel, control_panel: new.control_panel, ..old }
            &&& new.bottom_panel == BottomPanel { manual_control_on: v, ..bp }
            &&& new.control_panel == ControlPanel { active: v, ..old.control_panel }
            &&& actions.len() == 0
        },
        BottomPanelMessage::TeamSelected(t) => {
            &&& new == EngineApp {
                bottom_panel: new.bottom_panel,
                control_panel: new.control_panel,
                highlight_robot: new.highlight_robot,
                ..old
            }
            &&& new.bottom_panel == BottomPanel { control_team: t, ..bp }
            &&& new.control_panel == ControlPanel { team: t, ..old.control_panel }
            &&& new.highlight_robot == highlight_for(
                bp.highlight_on,
                u32_or_zero(bp.control_robot_id@),
                t,
                old.highlight_robot,
            )
            &&& actions.len() == 0
        },
        _ => {
            let (text, id) = match m {
                BottomPanelMessage::IncrementRobotId => {
                    let n = next_robot_id(bp.control_robot_id@);
                    (signed_decimal(n), n)
                },
                BottomPanelMessage::DecrementRobotId => {
                    let n = previous_robot_id(bp.control_robot_id@);
                    (signed_decimal(n), n)
                },
                BottomPanelMessage::RobotIdChanged(input) => {
                    let t = robot_id_input(input@);
                    (t, u32_or_zero(t))
                },
                _ => (Seq::empty(), 0),
            };
            &&& new == EngineApp {
                bottom_panel: new.bottom_panel,
                control_panel: new.control_panel,
                highlight_robot: new.highlight_robot,
                ..old
            }
            &&& new.bottom_panel.control_robot_id@ == text
            &&& new.bottom_panel == BottomPanel { control_robot_id: new.bottom_panel.control_robot_id, ..bp }
            &&& new.control_panel.robot_id@ == text
            &&& new.control_panel == ControlPanel { robot_id: new.control_panel.robot_id, ..old.control_panel }
            &&& new.highlight_robot == highlight_for(bp.highlight_on, id, bp.control_team, old.highlight_robot)
            &&& actions.len() == 0
        },
    }
}


/// The commands keyboard driving sends on a tick: a kick when `k` has just
/// gone down, and a drive command when any driving key is held.
pub open spec fn keyboard_actions(old: EngineApp, kick_down: bool) -> Seq<UiAction> {
    let id = parsed_i32_or_zero(old.control_panel.robot_id@) as i32;
    let team = team_id(old.control_panel.team) as i32;
    let keys = old.key_chars@;
    let vx = key_axis(keys, 'w', 's', 2);
    let vy = key_axis(keys, 'a', 'd', 2);
    let omega = key_axis(keys, 'q', 'e', 4);
    (if kick_down && !old.kick_key_was_down {
        seq![UiAction::Engine(EngineRequest::SendKickCommand { id, team })]
    } else {
        Seq::empty()
    }) + (if vx != 0 || vy != 0 || omega != 0 {
        seq![UiAction::DriveRobot { id, team, vx: vx as i32, vy: vy as i32, omega: omega as i32 }]
    } else {
        Seq::empty()
    })
}

/// Keyboard driving is on: manual control active in keyboard mode, outside replay.
pub open spec fn keyboard_driving(app: EngineApp) -> bool {
    !app.replay.enabled && app.control_panel.active && app.control_panel.mode
        == ControlMode::Keyboard
}

/// The interface after a live tick.
pub open spec fn tick_step(old: EngineApp, new: EngineApp, millis_since_vision: u64, sparkline_due: bool, actions: Seq<UiAction>) -> bool {
    if old.replay.enabled {
        new == old && actions.len() == 0
    } else {
        let connected = millis_since_vision < 1000;
        let kick_down = old.key_chars@.contains('k');
        &&& new == EngineApp {
            vision_connected: connected,
            vision_panel: new.vision_panel,
            toolbar: new.toolbar,
            kick_key_was_down: new.kick_key_was_down,
            ..old
        }
        &&& if connected {
            new.vision_panel == old.vision_panel && new.toolbar == old.toolbar
        } else {
            &&& new.vision_panel == VisionPanel { connected: false, pps: 0, ..old.vision_panel }
            &&& new.toolbar == Toolbar { pps: 0, pps_history: new.toolbar.pps_history, ..old.toolbar }
            &&& new.toolbar.pps_history@ == (if sparkline_due {
                old.toolbar.pps_history@.drop_first().push(0)
            } else {
                old.toolbar.pps_history@
            })
        }
        &&& if keyboard_driving(old) {
            new.kick_key_was_down == kick_down && actions == keyboard_actions(old, kick_down)
        } else {
            !new.kick_key_was_down && actions.len() == 0
        }
    }
}

/// The interface after a replay tick.
pub open spec fn replay_tick_step(old: EngineApp, new: EngineApp, delta_ms: u64, actions: Seq<UiAction>) -> bool {
    if !old.replay.enabled {
        new == old && actions.len() == 0
    } else {
        let view = if old.replay.frames@.len() == 0 { ReplayView::Empty } else { ReplayView::Frame };
        &&& new == EngineApp {
            vision_connected: true,
            vision_panel: VisionPanel { connected: true, pps: 0, ..old.vision_panel },
            toolbar: Toolbar { pps: 0, ..old.toolbar },
            replay: new.replay,
            ..old
        }
        &&& crate::gui::replay::tick_step(old.replay, new.replay, delta_ms, view)
        &&& actions == seq![
            UiAction::ClearLuaDrawings,
            if view == ReplayView::Empty { UiAction::ShowEmptyField } else { UiAction::ShowReplayFrame },
        ]
    }
}

/// The interface after a vision update arrived.
pub open spec fn vision_received_step(old: EngineApp, new: EngineApp, pps: u32, push: bool, actions: Seq<UiAction>) -> bool {
    &&& new == EngineApp {
        vision_panel: VisionPanel { connected: true, pps, ..old.vision_panel },
        toolbar: Toolbar { pps, pps_history: new.toolbar.pps_history, ..old.toolbar },
        ..old
    }
    &&& new.toolbar.pps_history@ == (if push {
        old.toolbar.pps_history@.drop_first().push(pps)
    } else {
        old.toolbar.pps_history@
    })
    &&& actions.len() == 0
}

/// The interface after a script status report: a failure opens the console;
/// a report without a path clears the path when no script is loaded.
pub open spec fn status_step(old: EngineApp, new: EngineApp, u: LuaScriptStatusUpdate, actions: Seq<UiAction>) -> bool {
    &&& new == EngineApp { toolbar: new.toolbar, lua_console: new.lua_console, ..old }
    &&& new.toolbar == Toolbar { script_status: u.status, script_path: new.toolbar.script_path, ..old.toolbar }
    &&& new.toolbar.script_path@ == match u.script_path {
        Some(p) => p@,
        None => if u.status == ScriptStatus::Idle { Seq::empty() } else { old.toolbar.script_path@ },
    }
    &&& new.lua_console.is_open() == (u.status == ScriptStatus::Error || old.lua_console.is_open())
    &&& new.lua_console.lines() == old.lua_console.lines()
    &&& new.lua_console.capacity() == old.lua_console.capacity()
    &&& actions.len() == 0
}

/// The interface after the script printed `line`: a line that is not blank
/// is logged, and an open console scrolls to it.
pub open spec fn log_step(old: EngineApp, new: EngineApp, line: String, actions: Seq<UiAction>) -> bool {
    &&& new == EngineApp { lua_console: new.lua_console, ..old }
    &&& new.lua_console.is_open() == old.lua_console.is_open()
    &&& new.lua_console.capacity() == old.lua_console.capacity()
    &&& if trimmed(line@).len() > 0 {
        &&& new.lua_console.lines() == keep_last(
            old.lua_console.lines().push(line),
            old.lua_console.capacity(),
        )
        &&& actions == (if old.lua_console.is_open() {
            seq![UiAction::ScrollConsoleToEnd]
        } else {
            Seq::empty()
        })
    } else {
        new.lua_console.lines() == old.lua_console.lines() && actions.len() == 0
    }
}

/// The interface after a replay message.
pub open spec fn replay_step(old: EngineApp, new: EngineApp, msg: Message, actions: Seq<UiAction>) -> bool {
    &&& new == EngineApp { replay: new.replay, ..old }
    &&& match msg {
        Message::ReplayFilePick => new == old && actions == seq![UiAction::PickReplayFile],
        Message::ReplayFileLoaded { path, frames } => match frames {
            Ok(f) => {
                &&& crate::gui::replay::load_step(old.replay, new.replay, path, frames, Ok(()))
                &&& actions == (if f@.len() > 0 {
                    seq![UiAction::ShowReplayFrame]
                } else {
                    Seq::empty()
                })
            },
            Err(e) => {
                &&& crate::gui::replay::load_step(old.replay, new.replay, path, frames, Err(e))
                &&& actions == seq![UiAction::ReplayLoadFailed(e)]
            },
        },
        Message::ReplayPlay => {
            &&& crate::gui::replay::playback_step(old.replay, new.replay, actions.len() == 1)
            &&& actions.len() == 0 || actions == seq![UiAction::ShowReplayFrame]
        },
        Message::ReplayPause => {
            &&& new.replay == ReplayState { is_playing: false, ..old.replay }
            &&& actions.len() == 0
        },
        Message::ReplaySeek(i) => {
            &&& crate::gui::replay::seek_step(old.replay, new.replay, i, actions.len() == 1)
            &&& actions.len() == 0 || actions == seq![UiAction::ShowReplayFrame]
        },
        _ => false,
    }
}

/// The interface after a window event.
pub open spec fn window_step(old: EngineApp, new: EngineApp, msg: Message, actions: Seq<UiAction>) -> bool {
    match msg {
        Message::PanelWindowOpened(p) => {
            &&& new == EngineApp { charts_panel: new.charts_panel, ..old }
            &&& new.charts_panel == ChartsPanel {
                active: p == SidebarPanel::Charts || old.charts_panel.active,
                ..old.charts_panel
            }
            &&& actions.len() == 0
        },
        Message::PanelWindowClosed(p) => if old.open_panels@.contains(p) {
            &&& new == EngineApp {
                charts_panel: new.charts_panel,
                open_panels: new.open_panels,
                sidebar: new.sidebar,
                ..old
            }
            &&& new.charts_panel == ChartsPanel {
                active: p != SidebarPanel::Charts && old.charts_panel.active,
                ..old.charts_panel
            }
            &&& forall|q: SidebarPanel| #[trigger] new.open_panels@.contains(q) <==> (
                old.open_panels@.contains(q) && q != p)
            &&& new.sidebar.active_panel == (if old.sidebar.active_panel == Some(p) {
                None
            } else {
                old.sidebar.active_panel
            })
            &&& actions.len() == 0
        } else {
            new == old && actions.len() == 0
        },
        Message::MainWindowClosed => {
            &&& new == old
            &&& actions.len() == 2
            &&& actions[0] matches UiAction::ClosePanelWindows(v) && v@ == old.open_panels@
            &&& actions[1] is Exit
        },
        _ => false,
    }
}

/// The interface after `msg`, and what it asks for. In replay mode, messages
/// other than the replay, tick, key and window ones are ignored.
pub open spec fn ui_step(old: EngineApp, new: EngineApp, msg: Message, actions: Seq<UiAction>) -> bool {
    if old.replay.enabled && !allowed_in_replay(msg) {
        new == old && actions.len() == 0
    } else {
        match msg {
            Message::Sidebar(m) => sidebar_step(old, new, m, actions),
            Message::Toolbar(m) => toolbar_step(old, new, m, actions),
            Message::BottomPanel(m) => bottom_panel_step(old, new, m, actions),
            Message::Vision(m) => {
                &&& new == EngineApp { vision_panel: new.vision_panel, ..old }
                &&& at_most_one_request(actions)
                &&& vision_step(old.vision_panel, new.vision_panel, m, sole_request(actions))
            },
            Message::Radio(m) => {
                &&& new == EngineApp { radio_panel: new.radio_panel, ..old }
                &&& at_most_one_request(actions)
                &&& radio_step(old.radio_panel, new.radio_panel, m, sole_request(actions))
            },
            Message::Kalman(m) => {
                &&& new == EngineApp { kalman_panel: new.kalman_panel, ..old }
                &&& at_most_one_request(actions)
                &&& kalman_step(old.kalman_panel, new.kalman_panel, m, sole_request(actions))
            },
            Message::Recording(m) => {
                &&& new == EngineApp { recording_panel: new.recording_panel, ..old }
                &&& at_most_one_request(actions)
                &&& recording_step(old.recording_panel, new.recording_panel, m, sole_request(actions))
            },
            Message::Control(m) => {
                &&& new == EngineApp { control_panel: new.control_panel, ..old }
                &&& control_step(old.control_panel, new.control_panel, m)
                &&& actions.len() == 0
            },
            Message::Charts(m) => {
                &&& new == EngineApp { charts_panel: new.charts_panel, ..old }
                &&& actions.len() == 1
                &&& actions[0] matches UiAction::Charts(e) && charts_step(old.charts_panel, new.charts_panel, m, e)
            },
            Message::Tick { millis_since_vision, sparkline_due } => tick_step(
                old,
                new,
                millis_since_vision,
                sparkline_due,
                actions,
            ),
            Message::ReplayTick { delta_ms } => replay_tick_step(old, new, delta_ms, actions),
            Message::VisionReceived { pps, push_sparkline } => vision_received_step(
                old,
                new,
                pps,
                push_sparkline,
                actions,
            ),
            Message::ScriptStatus(u) => status_step(old, new, u, actions),
            Message::LuaLogLine(line) => log_step(old, new, line, actions),
            Message::ScriptFileSelected(p) => match p {
                Some(path) => {
                    &&& new == EngineApp { toolbar: new.toolbar, ..old }
                    &&& new.toolbar == Toolbar { script_path: path, ..old.toolbar }
                    &&& at_most_one_request(actions)
                    &&& sole_request(actions) matches Some(EngineRequest::LoadScript { path: q })
                    &&& q@ == path@
                },
                None => new == old && actions.len() == 0,
            },
            Message::KeyPressed(k) => {
                &&& new == EngineApp { key_chars: new.key_chars, ..old }
                &&& forall|c: char| #[trigger] new.key_chars@.contains(c) <==> (old.key_chars@.contains(c) || c == key_char(k@))
                &&& actions.len() == 0
            },
            Message::KeyReleased(k) => {
                &&& new == EngineApp { key_chars: new.key_chars, ..old }
                &&& forall|c: char| #[trigger] new.key_chars@.contains(c) <==> (old.key_chars@.contains(c) && c != key_char(k@))
                &&& actions.len() == 0
            },
            Message::PanelWindowOpened(_) => window_step(old, new, msg, actions),
            Message::PanelWindowClosed(_) => window_step(old, new, msg, actions),
            Message::MainWindowClosed => window_step(old, new, msg, actions),
            _ => replay_step(old, new, msg, actions),
        }
    }
}


impl EngineApp {
    /// The replay timeline, the sparkline history and the console log are
    /// well formed.
    pub open spec fn wf(&self) -> bool {
        &&& self.replay.wf()
        &&& self.toolbar.pps_history@.len() > 0
        &&& self.lua_console.wf()
    }

    /// Handling `msg` stays within machine integers: the robot id is not at
    /// the end of the `i32` range in the arrow's direction, and the chart
    /// palette counter can still advance.
    pub open spec fn can_handle(&self, msg: Message) -> bool {
        &&& (msg matches Message::BottomPanel(BottomPanelMessage::IncrementRobotId)
            ==> parsed_i32_or_zero(self.bottom_panel.control_robot_id@) < i32::MAX)
        &&& (msg matches Message::BottomPanel(BottomPanelMessage::DecrementRobotId)
            ==> parsed_i32_or_zero(self.bottom_panel.control_robot_id@) > i32::MIN)
        &&& (msg is Charts ==> self.charts_panel.next_color() < usize::MAX)
    }

    /// The interface at start-up: no panels open, live mode, default settings,
    /// and a Lua console keeping at most `min(100, console_lines)` lines.
    pub fn new(console_lines: usize) -> (app: Self)
        ensures
            app.wf(),
            !app.replay.enabled,
            app.open_panels@.len() == 0,
            app.key_chars@.len() == 0,
            !app.kick_key_was_down,
            !app.vision_connected,
            !app.show_velocities,
            app.highlight_robot is None,
            app.sidebar.active_panel is None,
            !app.lua_console.is_open(),
            app.lua_console.lines().len() == 0,
            app.lua_console.capacity() == min_usize(DEFAULT_MAX_LINES, console_lines),
            toolbar_initial(app.toolbar),
            bottom_panel_initial(app.bottom_panel),
            vision_default(app.vision_panel),
            radio_default(app.radio_panel),
            kalman_default(app.kalman_panel),
            recording_default(app.recording_panel),
            control_default(app.control_panel),
            app.charts_panel.plots_view().len() == 0,
            !app.charts_panel.recording,
            !app.charts_panel.active,
            app.charts_panel.next_color() == 0,
            app.replay.file_path is None,
            !app.replay.is_playing,
            app.replay.frames@.len() == 0,
            app.replay.frame_index == 0,
            app.replay.elapsed_ms == 0,
    {
        EngineApp {
            sidebar: Sidebar::new(),
            toolbar: Toolbar::new(),
            bottom_panel: BottomPanel::new(),
            vision_panel: VisionPanel::default(),
            radio_panel: RadioPanel::default(),
            kalman_panel: KalmanPanel::default(),
            recording_panel: RecordingPanel::default(),
            control_panel: ControlPanel::default(),
            charts_panel: ChartsPanel::new(),
            lua_console: LuaConsolePanel::new(console_lines),
            open_panels: Vec::new(),
            key_chars: Vec::new(),
            kick_key_was_down: false,
            replay: ReplayState::new(),
            vision_connected: false,
            show_velocities: false,
            highlight_robot: None,
        }
    }

    fn on_sidebar(&mut self, m: SidebarMessage) -> (actions: Vec<UiAction>)
        requires
            old(self).wf(),
            !old(self).replay.enabled || m is ToggleReplayMode,
        ensures
            final(self).wf(),
            sidebar_step(*old(self), *final(self), m, actions@),
    {
        let mut actions: Vec<UiAction> = Vec::new();
        match m {
            SidebarMessage::ToggleReplayMode => {
                let entering = !self.replay.enabled;
                self.replay.set_enabled(entering);
                if entering {
                    let mut closing: Vec<SidebarPanel> = Vec::new();
                    std::mem::swap(&mut closing, &mut self.open_panels);
                    self.sidebar.active_panel = None;
                    self.lua_console.set_open(false);
                    self.key_chars = Vec::new();
                    self.kick_key_was_down = false;
                    actions.push(UiAction::ClosePanelWindows(closing));
                }
            },
            SidebarMessage::TogglePanel(p) => {
                if p == SidebarPanel::LuaConsole {
                    let open = self.lua_console.is_shown();
                    self.lua_console.set_open(!open);
                } else {
                    match index_of_panel(&self.open_panels, p) {
                        Some(_) => {
                            remove_panel(&mut self.open_panels, p);
                            let was_active = match self.sidebar.active_panel {
                                Some(a) => a == p,
                                None => false,
                            };
                            if was_active {
                                self.sidebar.active_panel = None;
                            }
                            actions.push(UiAction::ClosePanelWindow(p));
                        },
                        None => {
                            self.open_panels.push(p);
                            self.sidebar.active_panel = Some(p);
                            actions.push(UiAction::OpenPanelWindow(p));
                        },
                    }
                }
            },
        }
        actions
    }

    fn on_toolbar(&self, m: ToolbarMessage) -> (actions: Vec<UiAction>)
        ensures
            toolbar_step(*self, *self, m, actions@),
    {
        let mut actions: Vec<UiAction> = Vec::new();
        match m {
            ToolbarMessage::LoadScript => actions.push(UiAction::PickScriptFile),
            ToolbarMessage::ToggleScript => {
                if self.toolbar.script_status == ScriptStatus::Running {
                    actions.push(UiAction::Engine(EngineRequest::PauseScript));
                } else if self.toolbar.script_status != ScriptStatus::Idle {
                    actions.push(UiAction::Engine(EngineRequest::ResumeScript));
                }
            },
            ToolbarMessage::ReloadScript => {
                if self.toolbar.script_path.as_str().unicode_len() > 0 {
                    let path = self.toolbar.script_path.clone();
                    actions.push(UiAction::Engine(EngineRequest::LoadScript { path }));
                }
            },
        }
        actions
    }
}


impl EngineApp {
    fn set_robot_selection(&mut self, text: String, id: u32)
        ensures
            *final(self) == (EngineApp {
                bottom_panel: final(self).bottom_panel,
                control_panel: final(self).control_panel,
                highlight_robot: final(self).highlight_robot,
                ..*old(self)
            }),
            final(self).bottom_panel.control_robot_id@ == text@,
            final(self).bottom_panel == (BottomPanel {
                control_robot_id: final(self).bottom_panel.control_robot_id,
                ..old(self).bottom_panel
            }),
            final(self).control_panel.robot_id@ == text@,
            final(self).control_panel == (ControlPanel {
                robot_id: final(self).control_panel.robot_id,
                ..old(self).control_panel
            }),
            final(self).highlight_robot == highlight_for(
                old(self).bottom_panel.highlight_on,
                id as int,
                old(self).bottom_panel.control_team,
                old(self).highlight_robot,
            ),
    {
        self.control_panel.robot_id = text.clone();
        self.bottom_panel.control_robot_id = text;
        if self.bottom_panel.highlight_on {
            let team = self.bottom_panel.control_team.to_id();
            self.highlight_robot = Some((id, team));
        }
    }

    fn on_robot_id(&mut self, m: BottomPanelMessage)
        requires
            m is IncrementRobotId || m is DecrementRobotId || m is RobotIdChanged,
            m is IncrementRobotId ==> parsed_i32_or_zero(old(self).bottom_panel.control_robot_id@)
                < i32::MAX,
            m is DecrementRobotId ==> parsed_i32_or_zero(old(self).bottom_panel.control_robot_id@)
                > i32::MIN,
        ensures
            bottom_panel_step(*old(self), *final(self), m, Seq::empty()),
    {
        match m {
            BottomPanelMessage::IncrementRobotId => {
                let n = increment_robot_id(self.bottom_panel.control_robot_id.as_str());
                let text = i32_to_decimal(n);
                #[verifier::truncate]
                let id = n as u32;
                self.set_robot_selection(text, id);
            },
            BottomPanelMessage::DecrementRobotId => {
                let n = decrement_robot_id(self.bottom_panel.control_robot_id.as_str());
                let text = i32_to_decimal(n);
                self.set_robot_selection(text, n as u32);
            },
            BottomPanelMessage::RobotIdChanged(input) => {
                let text = sanitize_robot_id(input.as_str());
                let id = parse_u32_or_zero(text.as_str());
                self.set_robot_selection(text, id);
            },
            _ => {},
        }
    }

    #[verifier::rlimit(40)]
    fn on_bottom_panel(&mut self, m: BottomPanelMessage) -> (actions: Vec<UiAction>)
        requires
            m is IncrementRobotId ==> parsed_i32_or_zero(old(self).bottom_panel.control_robot_id@)
                < i32::MAX,
            m is DecrementRobotId ==> parsed_i32_or_zero(old(self).bottom_panel.control_robot_id@)
                > i32::MIN,
        ensures
            bottom_panel_step(*old(self), *final(self), m, actions@),
    {
        let mut actions: Vec<UiAction> = Vec::new();
        match m {
            BottomPanelMessage::SetTrace(v) => {
                self.bottom_panel.trace_on = v;
                actions.push(UiAction::ClearRobotTrace);
            },
            BottomPanelMessage::SetVectors(v) => {
                self.bottom_panel.vectors_on = v;
                self.show_velocities = v;
            },
            BottomPanelMessage::SetHighlight(v) => {
                self.bottom_panel.highlight_on = v;
                if v {
                    let id = parse_u32_or_zero(self.bottom_panel.control_robot_id.as_str());
                    let team = self.bottom_panel.control_team.to_id();
                    self.highlight_robot = Some((id, team));
                } else {
                    self.highlight_robot = None;
                }
            },
            BottomPanelMessage::SetManualControl(v) => {
                self.bottom_panel.manual_control_on = v;
                self.control_panel.active = v;
            },
            BottomPanelMessage::TeamSelected(t) => {
                self.bottom_panel.control_team = t;
                self.control_panel.team = t;
                if self.bottom_panel.highlight_on {
                    let id = parse_u32_or_zero(self.bottom_panel.control_robot_id.as_str());
                    self.highlight_robot = Some((id, t.to_id()));
                }
            },
            _ => {
                self.on_robot_id(m);
            },
        }
        actions
    }
}

fn without_char(v: &Vec<char>, c: char) -> (r: Vec<char>)
    ensures
        forall|q: char| #[trigger] r@.contains(q) <==> (v@.contains(q) && q != c),
{
    let mut r: Vec<char> = Vec::new();
    let mut i: usize = 0;
    while i < v.len()
        invariant
            i <= v@.len(),
            forall|q: char| #[trigger] r@.contains(q) <==> (v@.take(i as int).contains(q) && q != c),
        decreases v@.len() - i,
    {
        let x = v[i];
        let ghost before = r@;
        if x != c {
            r.push(x);
        }
        assert(v@.take(i + 1) =~= v@.take(i as int).push(x));
        assert forall|q: char| #[trigger] r@.contains(q) <==> (v@.take(i + 1).contains(q) && q != c) by {
            if x != c {
                if r@.contains(q) && q != x {
                    let k = choose|k: int| 0 <= k < r@.len() && r@[k] == q;
                    assert(before[k] == q);
                }
                if before.contains(q) {
                    let k = choose|k: int| 0 <= k < before.len() && before[k] == q;
                    assert(r@[k] == q);
                }
                assert(r@[before.len() as int] == x);
            }
            let t0 = v@.take(i as int);
            let t1 = v@.take(i + 1);
            assert(t1[i as int] == x);
            if t1.contains(q) && q != x {
                let k = choose|k: int| 0 <= k < t1.len() && t1[k] == q;
                assert(t0[k] == q);
            }
            if t0.contains(q) {
                let k = choose|k: int| 0 <= k < t0.len() && t0[k] == q;
                assert(t1[k] == q);
            }
        }
        i += 1;
    }
    assert(v@.take(v@.len() as int) =~= v@);
    r
}

fn copy_panels(v: &Vec<SidebarPanel>) -> (r: Vec<SidebarPanel>)
    ensures
        r@ == v@,
{
    let mut r: Vec<SidebarPanel> = Vec::new();
    let mut i: usize = 0;
    while i < v.len()
        invariant
            i <= v@.len(),
            r@ == v@.take(i as int),
        decreases v@.len() - i,
    {
        r.push(v[i]);
        i += 1;
        assert(r@ =~= v@.take(i as int));
    }
    assert(v@.take(v@.len() as int) =~= v@);
    r
}

impl EngineApp {
    fn poll_keyboard(&mut self) -> (actions: Vec<UiAction>)
        requires
            !old(self).replay.enabled,
        ensures
            *final(self) == (EngineApp { kick_key_was_down: final(self).kick_key_was_down, ..*old(self) }),
            if keyboard_driving(*old(self)) {
                &&& final(self).kick_key_was_down == old(self).key_chars@.contains('k')
                &&& actions@ == keyboard_actions(*old(self), old(self).key_chars@.contains('k'))
            } else {
                !final(self).kick_key_was_down && actions@.len() == 0
            },
    {
        let mut actions: Vec<UiAction> = Vec::new();
        if !self.control_panel.active || self.control_panel.mode != ControlMode::Keyboard {
            self.kick_key_was_down = false;
            return actions;
        }
        let kick_down = contains_char(&self.key_chars, 'k');
        let id = self.control_panel.robot_id_parsed();
        let team = self.control_panel.team.to_id();
        let mut first: Vec<UiAction> = Vec::new();
        if kick_down && !self.kick_key_was_down {
            first.push(UiAction::Engine(EngineRequest::SendKickCommand { id, team }));
        }
        self.kick_key_was_down = kick_down;
        let mut vx: i32 = 0;
        let mut vy: i32 = 0;
        let mut omega: i32 = 0;
        if contains_char(&self.key_chars, 'w') {
            vx = vx + 2;
        }
        if contains_char(&self.key_chars, 's') {
            vx = vx - 2;
        }
        if contains_char(&self.key_chars, 'a') {
            vy = vy + 2;
        }
        if contains_char(&self.key_chars, 'd') {
            vy = vy - 2;
        }
        if contains_char(&self.key_chars, 'q') {
            omega = omega + 4;
        }
        if contains_char(&self.key_chars, 'e') {
            omega = omega - 4;
        }
        let ghost kick_part = first@;
        actions = first;
        if vx != 0 || vy != 0 || omega != 0 {
            actions.push(UiAction::DriveRobot { id, team, vx, vy, omega });
        }
        assert(actions@ =~= keyboard_actions(*old(self), kick_down));
        actions
    }

    fn on_tick(&mut self, millis_since_vision: u64, sparkline_due: bool) -> (actions: Vec<UiAction>)
        requires
            old(self).wf(),
        ensures
            final(self).wf(),
            tick_step(*old(self), *final(self), millis_since_vision, sparkline_due, actions@),
    {
        if self.replay.enabled {
            return Vec::new();
        }
        let connected = millis_since_vision < 1000;
        self.vision_connected = connected;
        if !connected {
            self.vision_panel.connected = false;
            self.vision_panel.pps = 0;
            self.toolbar.pps = 0;
            if sparkline_due {
                self.toolbar.push_pps(0);
            }
        }
        self.poll_keyboard()
    }

    fn on_replay_tick(&mut self, delta_ms: u64) -> (actions: Vec<UiAction>)
        requires
            old(self).wf(),
        ensures
            final(self).wf(),
            replay_tick_step(*old(self), *final(self), delta_ms, actions@),
    {
        let mut actions: Vec<UiAction> = Vec::new();
        if !self.replay.enabled {
            return actions;
        }
        self.vision_connected = true;
        self.vision_panel.connected = true;
        self.vision_panel.pps = 0;
        self.toolbar.pps = 0;
        let view = self.replay.tick(delta_ms);
        actions.push(UiAction::ClearLuaDrawings);
        match view {
            ReplayView::Empty => actions.push(UiAction::ShowEmptyField),
            ReplayView::Frame => actions.push(UiAction::ShowReplayFrame),
        }
        assert(actions@ =~= seq![
            UiAction::ClearLuaDrawings,
            if view == ReplayView::Empty { UiAction::ShowEmptyField } else { UiAction::ShowReplayFrame },
        ]);
        actions
    }

    fn on_vision_received(&mut self, pps: u32, push: bool)
        requires
            old(self).wf(),
        ensures
            final(self).wf(),
            vision_received_step(*old(self), *final(self), pps, push, Seq::empty()),
    {
        self.vision_panel.connected = true;
        self.vision_panel.pps = pps;
        self.toolbar.pps = pps;
        if push {
            self.toolbar.push_pps(pps);
        }
    }

    fn on_script_status(&mut self, u: LuaScriptStatusUpdate)
        requires
            old(self).wf(),
        ensures
            final(self).wf(),
            status_step(*old(self), *final(self), u, Seq::empty()),
    {
        self.toolbar.script_status = u.status;
        if u.status == ScriptStatus::Error {
            self.lua_console.set_open(true);
        }
        match u.script_path {
            Some(p) => self.toolbar.script_path = p,
            None => {
                if u.status == ScriptStatus::Idle {
                    self.toolbar.script_path = String::new();
                }
            },
        }
    }

    fn on_log_line(&mut self, line: String) -> (actions: Vec<UiAction>)
        requires
            old(self).wf(),
        ensures
            final(self).wf(),
            log_step(*old(self), *final(self), line, actions@),
    {
        let mut actions: Vec<UiAction> = Vec::new();
        let ghost l = line;
        let added = self.lua_console.push_line(line);
        if added && self.lua_console.is_shown() {
            actions.push(UiAction::ScrollConsoleToEnd);
        }
        actions
    }

    fn on_key_pressed(&mut self, key: &str)
        ensures
            *final(self) == (EngineApp { key_chars: final(self).key_chars, ..*old(self) }),
            forall|c: char| #[trigger] final(self).key_chars@.contains(c) <==> (old(
                self,
            ).key_chars@.contains(c) || c == key_char(key@)),
    {
        let c = key_of(key);
        if !contains_char(&self.key_chars, c) {
            let ghost before = self.key_chars@;
            self.key_chars.push(c);
            assert forall|q: char| #[trigger] self.key_chars@.contains(q) <==> (before.contains(q)
                || q == c) by {
                if before.contains(q) {
                    let k = choose|k: int| 0 <= k < before.len() && before[k] == q;
                    assert(self.key_chars@[k] == q);
                }
                if self.key_chars@.contains(q) && q != c {
                    let k = choose|k: int| 0 <= k < self.key_chars@.len() && self.key_chars@[k] == q;
                    assert(before[k] == q);
                }
                assert(self.key_chars@[before.len() as int] == c);
            }
        }
    }

    fn on_key_released(&mut self, key: &str)
        ensures
            *final(self) == (EngineApp { key_chars: final(self).key_chars, ..*old(self) }),
            forall|c: char| #[trigger] final(self).key_chars@.contains(c) <==> (old(
                self,
            ).key_chars@.contains(c) && c != key_char(key@)),
    {
        let c = key_of(key);
        self.key_chars = without_char(&self.key_chars, c);
    }

    fn on_window(&mut self, msg: Message) -> (actions: Vec<UiAction>)
        requires
            msg is PanelWindowOpened || msg is PanelWindowClosed || msg is MainWindowClosed,
        ensures
            window_step(*old(self), *final(self), msg, actions@),
    {
        let mut actions: Vec<UiAction> = Vec::new();
        match msg {
            Message::PanelWindowOpened(p) => {
                if p == SidebarPanel::Charts {
                    self.charts_panel.active = true;
                }
            },
            Message::PanelWindowClosed(p) => {
                match index_of_panel(&self.open_panels, p) {
                    Some(_) => {
                        if p == SidebarPanel::Charts {
                            self.charts_panel.active = false;
                        }
                        remove_panel(&mut self.open_panels, p);
                        let was_active = match self.sidebar.active_panel {
                            Some(a) => a == p,
                            None => false,
                        };
                        if was_active {
                            self.sidebar.active_panel = None;
                        }
                    },
                    None => {},
                }
            },
            _ => {
                actions.push(UiAction::ClosePanelWindows(copy_panels(&self.open_panels)));
                actions.push(UiAction::Exit);
            },
        }
        actions
    }

    fn on_replay(&mut self, msg: Message) -> (actions: Vec<UiAction>)
        requires
            old(self).wf(),
            msg is ReplayFilePick || msg is ReplayFileLoaded || msg is ReplayPlay || msg is ReplayPause
                || msg is ReplaySeek,
        ensures
            final(self).wf(),
            replay_step(*old(self), *final(self), msg, actions@),
    {
        let mut actions: Vec<UiAction> = Vec::new();
        match msg {
            Message::ReplayFilePick => actions.push(UiAction::PickReplayFile),
            Message::ReplayFileLoaded { path, frames } => {
                let ghost loaded = frames;
                match self.replay.load_and_apply(path, frames) {
                    Ok(()) => {
                        if self.replay.has_frames() {
                            actions.push(UiAction::ShowReplayFrame);
                        }
                    },
                    Err(e) => actions.push(UiAction::ReplayLoadFailed(e)),
                }
            },
            Message::ReplayPlay => {
                if self.replay.start_playback() {
                    actions.push(UiAction::ShowReplayFrame);
                }
            },
            Message::ReplayPause => self.replay.pause(),
            Message::ReplaySeek(i) => {
                if self.replay.seek(i) {
                    actions.push(UiAction::ShowReplayFrame);
                }
            },
            _ => {},
        }
        actions
    }
}

fn handled_in_replay(msg: &Message) -> (b: bool)
    ensures
        b == allowed_in_replay(*msg),
{
    match msg {
        Message::Sidebar(SidebarMessage::ToggleReplayMode) => true,
        Message::ReplayFilePick => true,
        Message::ReplayFileLoaded { .. } => true,
        Message::ReplayPlay => true,
        Message::ReplayPause => true,
        Message::ReplaySeek(_) => true,
        Message::Tick { .. } => true,
        Message::ReplayTick { .. } => true,
        Message::KeyPressed(_) => true,
        Message::KeyReleased(_) => true,
        Message::PanelWindowOpened(_) => true,
        Message::PanelWindowClosed(_) => true,
        Message::MainWindowClosed => true,
        _ => false,
    }
}

fn request_actions(req: Option<EngineRequest>) -> (a: Vec<UiAction>)
    ensures
        a@ == engine_actions(req),
        at_most_one_request(a@),
        sole_request(a@) == req,
{
    let mut a: Vec<UiAction> = Vec::new();
    match req {
        Some(r) => a.push(UiAction::Engine(r)),
        None => {},
    }
    assert(a@ =~= engine_actions(req));
    a
}

impl EngineApp {
    /// Handles `msg`: updates the interface state and returns what the caller
    /// is to do (engine requests, windows, frames), as `ui_step` states.
    /// In replay mode the engine's reports (vision updates, script status,
    /// script output) are ignored, so the caller keeps them queued until live
    /// mode resumes.
    pub fn update(&mut self, msg: Message) -> (actions: Vec<UiAction>)
        requires
            old(self).wf(),
            old(self).can_handle(msg),
        ensures
            final(self).wf(),
            ui_step(*old(self), *final(self), msg, actions@),
    {
        if self.replay.enabled && !handled_in_replay(&msg) {
            return Vec::new();
        }
        match msg {
            Message::Sidebar(m) => self.on_sidebar(m),
            Message::Toolbar(m) => self.on_toolbar(m),
            Message::BottomPanel(m) => self.on_bottom_panel(m),
            Message::Vision(m) => request_actions(self.vision_panel.update(m)),
            Message::Radio(m) => request_actions(self.radio_panel.update(m)),
            Message::Kalman(m) => request_actions(self.kalman_panel.update(m)),
            Message::Recording(m) => request_actions(self.recording_panel.update(m)),
            Message::Control(m) => {
                self.control_panel.update(m);
                Vec::new()
            },
            Message::Charts(m) => {
                let e = self.charts_panel.update(m);
                let mut actions: Vec<UiAction> = Vec::new();
                actions.push(UiAction::Charts(e));
                actions
            },
            Message::Tick { millis_since_vision, sparkline_due } => self.on_tick(
                millis_since_vision,
                sparkline_due,
            ),
            Message::ReplayTick { delta_ms } => self.on_replay_tick(delta_ms),
            Message::VisionReceived { pps, push_sparkline } => {
                self.on_vision_received(pps, push_sparkline);
                Vec::new()
            },
            Message::ScriptStatus(u) => {
                self.on_script_status(u);
                Vec::new()
            },
            Message::LuaLogLine(line) => self.on_log_line(line),
            Message::ScriptFileSelected(p) => match p {
                Some(path) => {
                    self.toolbar.script_path = path.clone();
                    request_actions(Some(EngineRequest::LoadScript { path }))
                },
                None => Vec::new(),
            },
            Message::KeyPressed(k) => {
                self.on_key_pressed(k.as_str());
                Vec::new()
            },
            Message::KeyReleased(k) => {
                self.on_key_released(k.as_str());
                Vec::new()
            },
            Message::PanelWindowOpened(p) => self.on_window(Message::PanelWindowOpened(p)),
            Message::PanelWindowClosed(p) => self.on_window(Message::PanelWindowClosed(p)),
            Message::MainWindowClosed => self.on_window(Message::MainWindowClosed),
            _ => self.on_replay(msg),
        }
    }
}

/// Toggling a panel window twice outside replay mode opens it and then
/// closes it again: the set of open panel windows is back to what it was.
pub proof fn lemma_toggle_panel_twice(
    a: EngineApp,
    b: EngineApp,
    c: EngineApp,
    p: SidebarPanel,
    first: Seq<UiAction>,
    second: Seq<UiAction>,
)
    requires
        !a.replay.enabled,
        p != SidebarPanel::LuaConsole,
        !a.open_panels@.contains(p),
        ui_step(a, b, Message::Sidebar(SidebarMessage::TogglePanel(p)), first),
        ui_step(b, c, Message::Sidebar(SidebarMessage::TogglePanel(p)), second),
    ensures
        first == seq![UiAction::OpenPanelWindow(p)],
        second == seq![UiAction::ClosePanelWindow(p)],
        forall|q: SidebarPanel| #[trigger] c.open_panels@.contains(q) <==> a.open_panels@.contains(q),
        c.sidebar.active_panel is None,
{
    assert(b.open_panels@[a.open_panels@.len() as int] == p);
    assert(b.open_panels@.contains(p));
    assert forall|q: SidebarPanel| #[trigger] c.open_panels@.contains(q) <==> a.open_panels@.contains(q) by {
        if a.open_panels@.contains(q) {
            let k = choose|k: int| 0 <= k < a.open_panels@.len() && a.open_panels@[k] == q;
            assert(b.open_panels@[k] == q);
        }
        if b.open_panels@.contains(q) && q != p {
            let k = choose|k: int| 0 <= k < b.open_panels@.len() && b.open_panels@[k] == q;
            if k < a.open_panels@.len() {
                assert(a.open_panels@[k] == q);
            }
        }
    }
}

/// Keyboard driving kicks once per press of `k`: when the key is held over
/// two live ticks, the second tick sends no kick.
pub proof fn lemma_kick_once_per_press(
    a: EngineApp,
    b: EngineApp,
    c: EngineApp,
    m1: u64,
    d1: bool,
    m2: u64,
    d2: bool,
    first: Seq<UiAction>,
    second: Seq<UiAction>,
)
    requires
        keyboard_driving(a),
        a.key_chars@.contains('k'),
        ui_step(a, b, Message::Tick { millis_since_vision: m1, sparkline_due: d1 }, first),
        ui_step(b, c, Message::Tick { millis_since_vision: m2, sparkline_due: d2 }, second),
    ensures
        b.kick_key_was_down,
        forall|i: int|
            0 <= i < second.len() ==> !(#[trigger] second[i] matches UiAction::Engine(
                EngineRequest::SendKickCommand { .. },
            )),
{
    assert(b.key_chars == a.key_chars);
    assert(keyboard_driving(b));
    let keys = b.key_chars@;
    let vx = key_axis(keys, 'w', 's', 2);
    let vy = key_axis(keys, 'a', 'd', 2);
    let omega = key_axis(keys, 'q', 'e', 4);
    let id = parsed_i32_or_zero(b.control_panel.robot_id@) as i32;
    let team = team_id(b.control_panel.team) as i32;
    if vx != 0 || vy != 0 || omega != 0 {
        assert(second =~= seq![
            UiAction::DriveRobot { id, team, vx: vx as i32, vy: vy as i32, omega: omega as i32 },
        ]);
    } else {
        assert(second =~= Seq::<UiAction>::empty());
    }
}

/// Keyboard driving on a live tick: `w` adds 2 and `s` takes 2 from the
/// forward speed, `a` adds 2 and `d` takes 2 from the sideways speed (left is
/// positive), `q` adds 4 and `e` takes 4 from the turn rate. The tick sends a
/// kick first when `k` has just gone down, then one drive command with those
/// speeds whenever one of them is non-zero, and nothing else.
pub proof fn lemma_keyboard_speeds(
    a: EngineApp,
    b: EngineApp,
    m: u64,
    d: bool,
    acts: Seq<UiAction>,
)
    requires
        keyboard_driving(a),
        ui_step(a, b, Message::Tick { millis_since_vision: m, sparkline_due: d }, acts),
    ensures
        ({
            let keys = a.key_chars@;
            let vx: int = (if keys.contains('w') { 2int } else { 0int }) - (if keys.contains('s') {
                2int
            } else {
                0int
            });
            let vy: int = (if keys.contains('a') { 2int } else { 0int }) - (if keys.contains('d') {
                2int
            } else {
                0int
            });
            let omega: int = (if keys.contains('q') { 4int } else { 0int }) - (if keys.contains(
                'e',
            ) {
                4int
            } else {
                0int
            });
            let kick = keys.contains('k') && !a.kick_key_was_down;
            let drive = vx != 0 || vy != 0 || omega != 0;
            &&& acts.len() == (if kick { 1int } else { 0int }) + (if drive { 1int } else { 0int })
            &&& kick ==> (acts[0] matches UiAction::Engine(EngineRequest::SendKickCommand { .. }))
            &&& drive ==> match acts.last() {
                UiAction::DriveRobot { vx: x, vy: y, omega: w, .. } => x == vx && y == vy && w
                    == omega,
                _ => false,
            }
        }),
{
    let keys = a.key_chars@;
    assert(acts == keyboard_actions(a, keys.contains('k')));
}

} // verus!
