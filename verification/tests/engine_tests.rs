use ssl_engine::console::{ConsoleAction, ConsoleReader};
use ssl_engine::gui::app::{EngineApp, Message};
use ssl_engine::gui::bottom_panel::{
    decrement_robot_id, increment_robot_id, sanitize_robot_id, BottomPanel, BottomPanelMessage,
};
use ssl_engine::gui::charts::{ChartsEffect, ChartsMessage, ChartsPanel, PlotVariable};
use ssl_engine::gui::live_buffer::{LiveBuffer, LIVE_BUFFER_SIZE};
use ssl_engine::gui::lua_console::LuaConsolePanel;
use ssl_engine::gui::panels::{
    ControlPanel, RadioMessage, RadioPanel, Team, VisionMessage, VisionPanel,
};
use ssl_engine::gui::replay::{ReplayState, ReplayView};
use ssl_engine::gui::replay_log::{build_frames, log_records_of, record_ids_of, ReplayRow};
use ssl_engine::gui::sidebar::{Sidebar, SidebarMessage, SidebarPanel};
use ssl_engine::gui::toolbar::{ScriptStatus, Toolbar, ToolbarMessage};
use ssl_engine::gui::types::{EngineRequest, LuaScriptStatusUpdate, UiAction};
use ssl_engine::log_writer::{json_merge_plan, session_file, JsonKind, JsonMerge, PendingTicks};
use ssl_engine::logger::{chrono_like_timestamp, log_file_path, ColumnRegistry, LoggerError};
use ssl_engine::packet::{serialize, PacketCommand};
use ssl_engine::path_planner::{choose_path, pick, simplify_indices, waypoints, FastPathPlanner};
use ssl_engine::referee::{command_to_string, GameState};
use ssl_engine::script::{
    package_path_command, paused_stop_targets, FrameAction, ProcessOutcome, ScriptControl,
    ScriptExecState,
};
use ssl_engine::text::{i32_to_decimal, parse_i32, parse_u16, parse_u32, split_str, trim, u64_to_decimal};
use ssl_engine::vision::PpsCounter;
use std::collections::HashMap;

// ---- radio packets ----

#[test]
fn serialize_empty_map() {
    let map = HashMap::new();
    let result = serialize(&map, 6);
    assert_eq!(result.len(), 30);
    assert!(result.iter().all(|&b| b == 0));
}

#[test]
fn serialize_single_command() {
    let mut map = HashMap::new();
    let cmd = PacketCommand {
        vx: (1.5f64 * 100.0) as i32,
        vy: (-0.5f64 * 100.0) as i32,
        angular: 0,
        dribbler: 0,
        kick_x: true,
    };
    map.insert(0, cmd);

    let result = serialize(&map, 6);
    assert_eq!(result.len(), 30);
    // Byte 0 should have kick bit set
    assert!(result[0] & 0x02 != 0, "Kick bit should be set");
}

#[test]
fn serialize_encodes_each_field() {
    let mut map = HashMap::new();
    map.insert(2, PacketCommand { vx: 150, vy: -50, angular: 300, dribbler: 5, kick_x: false });
    let result = serialize(&map, 3);
    assert_eq!(result.len(), 15);
    assert!(result[..10].iter().all(|&b| b == 0));
    // id 2, dribbler 5, no kick
    assert_eq!(result[10], (2 << 5) | (5 << 2));
    // vx = 150: sign 0, low bits 150 % 128 = 22
    assert_eq!(result[11], 22);
    // vy = -50: sign 1, low bits 50
    assert_eq!(result[12], 0x80 | 50);
    // angular = 300: low bits 300 % 128 = 44
    assert_eq!(result[13], 44);
    // high bits: 150 / 128 = 1, 50 / 128 = 0, 300 / 128 = 2
    assert_eq!(result[14], (1 << 6) | 2);
}

#[test]
fn serialize_clamps_velocities() {
    let mut map = HashMap::new();
    map.insert(0, PacketCommand { vx: 10_000, vy: -10_000, angular: 0, dribbler: 0, kick_x: false });
    let result = serialize(&map, 1);
    // 511 = 3 * 128 + 127
    assert_eq!(result[1], 127);
    assert_eq!(result[2], 0x80 | 127);
    assert_eq!(result[4], (3 << 6) | (3 << 4));
}

#[test]
fn serialize_ignores_ids_beyond_count() {
    let mut map = HashMap::new();
    map.insert(7, PacketCommand { vx: 1, vy: 1, angular: 1, dribbler: 1, kick_x: true });
    let result = serialize(&map, 6);
    assert!(result.iter().all(|&b| b == 0));
}

// ---- referee ----

#[test]
fn referee_command_names() {
    assert_eq!(command_to_string(0), "HALT");
    assert_eq!(command_to_string(3), "FORCE_START");
    assert_eq!(command_to_string(9), "DIRECT_FREE_BLUE");
    assert_eq!(command_to_string(10), "UNKNOWN");
    assert_eq!(command_to_string(17), "BALL_PLACEMENT_BLUE");
    assert_eq!(command_to_string(-1), "UNKNOWN");
}

#[test]
fn game_state_holds_last_command() {
    let mut gs = GameState::new();
    assert_eq!(gs.get_ref_message(), "");
    gs.apply_referee_command(1);
    assert_eq!(gs.get_ref_message(), "STOP");
    gs.set_ref_command("CUSTOM".to_string());
    assert_eq!(gs.get_ref_message(), "CUSTOM");
}

// ---- text ----

#[test]
fn parse_integers_like_from_str() {
    assert_eq!(parse_i32("42"), Some(42));
    assert_eq!(parse_i32("-7"), Some(-7));
    assert_eq!(parse_i32("+3"), Some(3));
    assert_eq!(parse_i32(" 3"), None);
    assert_eq!(parse_i32(""), None);
    assert_eq!(parse_i32("-"), None);
    assert_eq!(parse_i32("2147483647"), Some(i32::MAX));
    assert_eq!(parse_i32("2147483648"), None);
    assert_eq!(parse_i32("-2147483648"), Some(i32::MIN));
    assert_eq!(parse_u16("65535"), Some(65535));
    assert_eq!(parse_u16("65536"), None);
    assert_eq!(parse_u32("-1"), None);
    assert_eq!(parse_u32("4294967295"), Some(u32::MAX));
}

#[test]
fn decimal_round_trip() {
    for v in [0, 7, 10, 12, -1, -250, i32::MAX, i32::MIN] {
        let s = i32_to_decimal(v);
        assert_eq!(s, v.to_string());
        assert_eq!(parse_i32(&s), Some(v));
    }
    assert_eq!(u64_to_decimal(1_234_567), "1234567");
}

#[test]
fn trim_and_split() {
    assert_eq!(trim("  a b \t\n"), "a b");
    assert_eq!(trim(""), "");
    assert_eq!(split_str("a,,b", ','), vec!["a", "", "b"]);
    assert_eq!(split_str("", ','), vec![""]);
    assert_eq!(split_str("x,", ','), vec!["x", ""]);
}

// ---- logger ----

#[test]
fn test_idempotence_columns() {
    let mut reg = ColumnRegistry::new();
    // first registration
    reg.register_columns("test_log", vec!["col1".to_string(), "col2".to_string()]);
    assert_eq!(reg.columns_of("test_log").unwrap().len(), 2);

    // second registration with overlapping columns
    reg.register_columns("test_log", vec!["col2".to_string(), "col3".to_string()]);
    let cols = reg.columns_of("test_log").unwrap();
    assert_eq!(cols.len(), 3);
    assert_eq!(cols[0], "col1");
    assert_eq!(cols[1], "col2");
    assert_eq!(cols[2], "col3");
}

#[test]
fn register_same_columns_twice_sends_once() {
    let mut reg = ColumnRegistry::new();
    let first = reg.register_columns("main", vec!["a".to_string(), "b".to_string()]);
    assert_eq!(first, Some(vec!["a".to_string(), "b".to_string()]));
    let second = reg.register_columns("main", vec!["b".to_string(), "a".to_string()]);
    assert_eq!(second, None);
    assert_eq!(reg.columns_of("other"), None);
}

#[test]
fn log_paths_and_timestamps() {
    assert_eq!(chrono_like_timestamp(1_700_000_000), "20231114_221320");
    assert_eq!(chrono_like_timestamp(1_771_415_881), "20260218_115801");
    assert_eq!(chrono_like_timestamp(0), "19700101_000000");
    assert_eq!(chrono_like_timestamp(951_782_400), "20000229_000000");
    assert_eq!(chrono_like_timestamp(978_307_199), "20001231_235959");
    assert_eq!(log_file_path(Some("run.csv"), "5"), "run.csv");
    assert_eq!(log_file_path(Some(""), "5"), "logs/log_5.csv");
    assert_eq!(log_file_path(None, "17"), "logs/log_17.csv");
}

// ---- console ----

#[test]
fn console_commands() {
    let mut c = ConsoleReader::new();
    assert!(matches!(c.handle_line("   "), ConsoleAction::Nothing));
    assert!(matches!(c.handle_line("reload"), ConsoleAction::NothingToReload));
    match c.handle_line("  run  scripts/a.lua ") {
        ConsoleAction::RunScript(p) => assert_eq!(p, "scripts/a.lua"),
        _ => panic!("expected run"),
    }
    match c.handle_line("reload") {
        ConsoleAction::RunScript(p) => assert_eq!(p, "scripts/a.lua"),
        _ => panic!("expected reload"),
    }
    assert!(matches!(c.handle_line("pause"), ConsoleAction::PauseScript));
    assert!(matches!(c.handle_line("resume"), ConsoleAction::ResumeScript));
    assert!(matches!(c.handle_line("exit"), ConsoleAction::Exit));
    match c.handle_line(" dance ") {
        ConsoleAction::Unknown(s) => assert_eq!(s, "dance"),
        _ => panic!("expected unknown"),
    }
}

// ---- script control ----

#[test]
fn script_lifecycle() {
    let mut c = ScriptControl::new();
    assert_eq!(c.script_state(), ScriptExecState::NoScript);
    assert_eq!(c.frame_action(), FrameAction::Idle);
    assert!(!c.pause_script());
    assert_eq!(c.run_script(true), ScriptExecState::Paused);
    assert_eq!(c.frame_action(), FrameAction::StopRobots);
    assert!(c.resume_script());
    assert_eq!(c.script_state(), ScriptExecState::Running);
    assert_eq!(c.frame_action(), FrameAction::CallProcess);
    assert_eq!(c.process_finished(ProcessOutcome::Completed), ScriptExecState::Running);
    assert_eq!(c.process_finished(ProcessOutcome::RuntimeError), ScriptExecState::Failed);
    assert_eq!(c.frame_action(), FrameAction::StopRobots);
    assert!(c.resume_script());
    assert_eq!(c.script_state(), ScriptExecState::Running);
    assert!(c.pause_script());
    assert_eq!(c.script_state(), ScriptExecState::Paused);
    assert_eq!(c.run_script(false), ScriptExecState::Failed);
}

#[test]
fn paused_script_stops_every_robot() {
    let t = paused_stop_targets();
    assert_eq!(t.len(), 12);
    assert_eq!(t[0], (0, 0));
    assert_eq!(t[5], (5, 0));
    assert_eq!(t[6], (0, 1));
    assert_eq!(t[11], (5, 1));
}

// ---- panels ----

#[test]
fn sidebar_toggle_twice_restores() {
    let mut s = Sidebar::new();
    assert_eq!(s.active_panel, None);
    s.toggle(SidebarPanel::Radio);
    assert_eq!(s.active_panel, Some(SidebarPanel::Radio));
    s.toggle(SidebarPanel::Vision);
    assert_eq!(s.active_panel, Some(SidebarPanel::Vision));
    s.toggle(SidebarPanel::Vision);
    assert_eq!(s.active_panel, None);
}

#[test]
fn toolbar_history_keeps_length() {
    let mut t = Toolbar::new();
    assert_eq!(t.pps_history.len(), 60);
    t.push_pps(75);
    t.push_pps(80);
    assert_eq!(t.pps, 80);
    assert_eq!(t.pps_history.len(), 60);
    assert_eq!(t.pps_history[58], 75);
    assert_eq!(t.pps_history[59], 80);
    assert_eq!(t.pps_history[0], 0);
}

#[test]
fn team_ids() {
    assert_eq!(Team::Blue.to_id(), 0);
    assert_eq!(Team::Yellow.to_id(), 1);
}

#[test]
fn control_panel_robot_id() {
    let mut p = ControlPanel::default();
    assert_eq!(p.robot_id_parsed(), 0);
    p.robot_id = "7".to_string();
    assert_eq!(p.robot_id_parsed(), 7);
    p.robot_id = "x".to_string();
    assert_eq!(p.robot_id_parsed(), 0);
}

#[test]
fn vision_panel_reconnect_needs_valid_port() {
    let mut v = VisionPanel::default();
    v.update(VisionMessage::IpChanged("224.5.23.2".to_string()));
    v.update(VisionMessage::PortChanged("10020".to_string()));
    match v.update(VisionMessage::Reconnect) {
        Some(EngineRequest::UpdateVisionConnection { ip, port }) => {
            assert_eq!(ip, "224.5.23.2");
            assert_eq!(port, 10020);
        }
        _ => panic!("expected a reconnect request"),
    }
    v.update(VisionMessage::PortChanged("70000".to_string()));
    assert!(v.update(VisionMessage::Reconnect).is_none());
}

#[test]
fn radio_panel_defaults_baud_rate() {
    let mut r = RadioPanel::default();
    r.baud_rate = "abc".to_string();
    assert_eq!(r.baud_rate_parsed(), 115200);
    r.baud_rate = "9600".to_string();
    assert_eq!(r.baud_rate_parsed(), 9600);
    let _ = r.update(RadioMessage::UseRadioToggled(true));
}

#[test]
fn robot_id_selector() {
    assert_eq!(sanitize_robot_id("a1b2"), "12");
    assert_eq!(sanitize_robot_id("99"), "12");
    assert_eq!(sanitize_robot_id("xyz"), "");
    assert_eq!(sanitize_robot_id("007"), "7");
    assert_eq!(increment_robot_id("11"), 12);
    assert_eq!(increment_robot_id("12"), 12);
    assert_eq!(increment_robot_id("-5"), -4);
    assert_eq!(increment_robot_id("junk"), 1);
    assert_eq!(decrement_robot_id("0"), 0);
    assert_eq!(decrement_robot_id("5"), 4);
    let b = BottomPanel::new();
    assert_eq!(b.control_robot_id, "0");
}

// ---- Lua console ----

#[test]
fn lua_console_keeps_newest_lines() {
    let mut c = LuaConsolePanel::new(3);
    assert!(!c.push_line("   ".to_string()));
    for i in 0..5 {
        assert!(c.push_line(format!("line {i}")));
    }
    assert_eq!(c.len(), 3);
    assert_eq!(c.line(0), "line 2");
    assert_eq!(c.line(2), "line 4");
    c.set_max_lines(1000);
    assert_eq!(c.len(), 3);
    c.set_max_lines(1);
    assert_eq!(c.len(), 1);
    assert_eq!(c.line(0), "line 4");
}

// ---- charts ----

#[test]
fn charts_plots_and_series() {
    let mut c = ChartsPanel::new();
    assert_eq!(c.update(ChartsMessage::AddPlot), ChartsEffect::PlotAdded);
    assert_eq!(c.plots.len(), 1);
    assert_eq!(c.plots[0].series.len(), 1);
    assert_eq!(c.update(ChartsMessage::AddYVar(0)), ChartsEffect::SeriesAdded(0));
    assert_eq!(c.plots[0].series[1].var, PlotVariable::Vy);
    assert_eq!(c.plots[0].series[1].color_index, 1);
    assert_eq!(c.update(ChartsMessage::RemoveYVar(0, 0)), ChartsEffect::SeriesRemoved(0, 0));
    // the last series of a plot stays
    assert_eq!(c.update(ChartsMessage::RemoveYVar(0, 0)), ChartsEffect::Nothing);
    assert_eq!(c.update(ChartsMessage::RemovePlot(3)), ChartsEffect::Nothing);
    assert_eq!(c.update(ChartsMessage::ExportCsv), ChartsEffect::Export);
    assert_eq!(c.update(ChartsMessage::RemovePlot(0)), ChartsEffect::PlotRemoved(0));
    assert_eq!(c.plots.len(), 0);
}

// ---- replay ----

#[test]
fn replay_playback_and_seek() {
    let mut r = ReplayState::new();
    assert_eq!(r.tick(16), ReplayView::Empty);
    assert!(r.load_and_apply("log.csv".to_string(), Ok(vec![0, 100, 200, 300])).is_ok());
    assert_eq!(r.frame_index, 0);
    assert!(!r.start_playback());
    assert_eq!(r.tick(150), ReplayView::Frame);
    assert_eq!(r.frame_index, 1);
    assert_eq!(r.elapsed_ms, 150);
    assert_eq!(r.tick(1000), ReplayView::Frame);
    assert_eq!(r.frame_index, 3);
    assert!(!r.is_playing);
    assert_eq!(r.elapsed_ms, 300);
    // playing from the last frame starts over
    assert!(r.start_playback());
    assert_eq!(r.frame_index, 0);
    assert!(r.seek(99));
    assert_eq!(r.frame_index, 3);
    assert_eq!(r.current_frame_elapsed_ms(), 300);
    let err = r.load_and_apply("bad.csv".to_string(), Err("cannot read".to_string()));
    assert_eq!(err, Err("cannot read".to_string()));
    assert!(!r.has_frames());
    assert!(!r.seek(0));
}

#[test]
fn replay_log_records_and_frames() {
    let content = "ElapsedTime,RobotID,Team,a,b,c,d,e,f,g,h\n\
                   0.0, 1, 0,0,0,0,1,2,0,0,0\n\
                   \n\
                   too,few,fields\n\
                   0.0,-1,-1,0,0,0,5,6,0,0,0\r\n\
                   0.1,x,0,0,0,0,0,0,0,0,0\n";
    let recs = log_records_of(content);
    assert_eq!(recs.len(), 3);
    assert_eq!(recs[0][1], "1");
    assert_eq!(record_ids_of(&recs[0]), Some((1, 0)));
    assert_eq!(record_ids_of(&recs[1]), Some((-1, -1)));
    assert_eq!(record_ids_of(&recs[2]), None);

    let rows = vec![
        ReplayRow { elapsed_ms: 100, robot_id: 3, team: 0 },
        ReplayRow { elapsed_ms: 0, robot_id: 1, team: 1 },
        ReplayRow { elapsed_ms: 100, robot_id: 1, team: 0 },
        ReplayRow { elapsed_ms: 100, robot_id: -1, team: -1 },
        ReplayRow { elapsed_ms: 100, robot_id: 3, team: 0 },
        ReplayRow { elapsed_ms: 50, robot_id: 2, team: 7 },
        ReplayRow { elapsed_ms: 100, robot_id: -3, team: 0 },
    ];
    let frames = build_frames(&rows);
    assert_eq!(frames.len(), 3);
    assert_eq!(frames[0].elapsed_ms, 0);
    assert_eq!(frames[0].yellow, vec![(1, 1)]);
    assert!(frames[0].blue.is_empty());
    assert_eq!(frames[0].ball, None);
    assert_eq!(frames[1].elapsed_ms, 50);
    assert!(frames[1].blue.is_empty() && frames[1].yellow.is_empty());
    assert_eq!(frames[2].elapsed_ms, 100);
    assert_eq!(frames[2].blue, vec![(1, 2), (3, 4)]);
    assert_eq!(frames[2].ball, Some(3));
}

// ---- path planning ----

#[test]
fn path_shortening_keeps_needed_waypoints() {
    assert_eq!(FastPathPlanner::new(4).max_depth(), 4);
    assert_eq!(FastPathPlanner::default().max_depth(), 10);
    assert_eq!(simplify_indices(2, |_, _| false), vec![0, 1]);
    // everything visible: straight to the end
    assert_eq!(simplify_indices(5, |_, _| true), vec![0, 4]);
    // nothing visible: every waypoint stays
    assert_eq!(simplify_indices(4, |_, _| false), vec![0, 1, 2, 3]);
    // from 0 only up to 2 is visible, from 2 the end is
    assert_eq!(simplify_indices(5, |i, j| (i == 0 && j <= 2) || i == 2), vec![0, 2, 4]);
}

// ---- vision rate ----

#[test]
fn packets_per_second() {
    let mut c = PpsCounter::new(0);
    assert_eq!(c.on_packet(10), 0);
    assert_eq!(c.on_packet(500), 0);
    assert_eq!(c.on_packet(1000), 3);
    assert_eq!(c.packet_count, 0);
    assert_eq!(c.on_packet(1500), 3);
    assert_eq!(c.on_packet(2100), 2);
}

// ---- interface ----

#[test]
fn interface_panels_and_replay_mode() {
    let mut app = EngineApp::new(100);
    let a = app.update(Message::Sidebar(SidebarMessage::TogglePanel(SidebarPanel::Radio)));
    assert!(matches!(a.as_slice(), [UiAction::OpenPanelWindow(SidebarPanel::Radio)]));
    assert_eq!(app.open_panels, vec![SidebarPanel::Radio]);
    let a = app.update(Message::Sidebar(SidebarMessage::ToggleReplayMode));
    assert!(matches!(a.as_slice(), [UiAction::ClosePanelWindows(v)] if v == &vec![SidebarPanel::Radio]));
    assert!(app.replay.enabled);
    assert!(app.open_panels.is_empty());
    // ignored in replay mode
    let a = app.update(Message::Toolbar(ToolbarMessage::LoadScript));
    assert!(a.is_empty());
    let a = app.update(Message::ReplayTick { delta_ms: 16 });
    assert!(matches!(a.as_slice(), [UiAction::ClearLuaDrawings, UiAction::ShowEmptyField]));
    app.update(Message::Sidebar(SidebarMessage::ToggleReplayMode));
    assert!(!app.replay.enabled);
}

#[test]
fn interface_keyboard_driving() {
    let mut app = EngineApp::new(100);
    app.update(Message::BottomPanel(BottomPanelMessage::SetManualControl(true)));
    app.update(Message::BottomPanel(BottomPanelMessage::IncrementRobotId));
    assert_eq!(app.control_panel.robot_id, "1");
    app.update(Message::KeyPressed("W".to_string()));
    app.update(Message::KeyPressed("k".to_string()));
    let a = app.update(Message::Tick { millis_since_vision: 10, sparkline_due: false });
    assert_eq!(a.len(), 2);
    assert!(matches!(a[0], UiAction::Engine(EngineRequest::SendKickCommand { id: 1, team: 0 })));
    assert!(matches!(a[1], UiAction::DriveRobot { id: 1, team: 0, vx: 2, vy: 0, omega: 0 }));
    // the kick fires once per key press
    let a = app.update(Message::Tick { millis_since_vision: 10, sparkline_due: false });
    assert_eq!(a.len(), 1);
    app.update(Message::KeyReleased("w".to_string()));
    let a = app.update(Message::Tick { millis_since_vision: 2000, sparkline_due: true });
    assert!(a.is_empty());
    assert!(!app.vision_connected);
    assert_eq!(app.toolbar.pps_history[59], 0);
}

#[test]
fn interface_script_status() {
    let mut app = EngineApp::new(100);
    app.update(Message::ScriptFileSelected(Some("a.lua".to_string())));
    assert_eq!(app.toolbar.script_path, "a.lua");
    app.update(Message::ScriptStatus(LuaScriptStatusUpdate {
        status: ScriptStatus::Error,
        script_path: None,
    }));
    assert!(app.lua_console.is_shown());
    assert_eq!(app.toolbar.script_path, "a.lua");
    let a = app.update(Message::Toolbar(ToolbarMessage::ToggleScript));
    assert!(matches!(a.as_slice(), [UiAction::Engine(EngineRequest::ResumeScript)]));
    app.update(Message::ScriptStatus(LuaScriptStatusUpdate {
        status: ScriptStatus::Idle,
        script_path: None,
    }));
    assert_eq!(app.toolbar.script_path, "");
    let a = app.update(Message::LuaLogLine("hello".to_string()));
    assert!(matches!(a.as_slice(), [UiAction::ScrollConsoleToEnd]));
    let a = app.update(Message::MainWindowClosed);
    assert!(matches!(a.as_slice(), [UiAction::ClosePanelWindows(_), UiAction::Exit]));
}

#[test]
fn path_splitting_around_obstacles() {
    let planner = FastPathPlanner::new(3);
    // points on a line; the segment 0 -> 10 is blocked unless it is short
    let collides = |a: i32, b: i32| (b - a).abs() > 4;
    let subgoal = |a: i32, b: i32| Some((a + b) / 2);
    let segs = planner.create_path_direction(0, 10, &collides, &subgoal);
    assert_eq!(segs, vec![(0, 2, 2), (2, 5, 2), (5, 7, 2), (7, 10, 2)]);
    // a failed subgoal search gives no path
    let none = |_: i32, _: i32| None;
    assert!(planner.create_path_direction(0, 10, &collides, &none).is_empty());
    // the split limit stops splitting
    let limited = FastPathPlanner::new(0);
    assert_eq!(limited.create_path_direction(0, 10, &collides, &subgoal), vec![(0, 10, 0)]);
    assert_eq!(choose_path(vec![1, 2], vec![3]), vec![3]);
    assert_eq!(choose_path(vec![1], vec![3, 4]), vec![1]);
    assert_eq!(choose_path(Vec::<i32>::new(), vec![3, 4]), vec![3, 4]);
    assert_eq!(waypoints(&segs, 0, 10), vec![0, 2, 5, 7, 10]);
    assert_eq!(waypoints(&Vec::<(i32, i32, i32)>::new(), 0, 10), vec![0, 10]);
    assert_eq!(pick(&vec![0, 2, 5, 7, 10], &vec![0, 3, 4]), vec![0, 7, 10]);
}

#[test]
fn script_package_path() {
    assert_eq!(
        package_path_command("scripts\\team"),
        "package.path = 'scripts/team/?.lua;' .. package.path"
    );
    assert_eq!(package_path_command(""), "package.path = '/?.lua;' .. package.path");
}

#[test]
fn pending_ticks_complete_in_order() {
    let mut p: PendingTicks<&str> = PendingTicks::new();
    assert!(p.add(20, true, "a").is_empty());
    // an earlier tick arriving later is kept, in order
    assert!(p.add(10, false, "b").is_empty());
    assert_eq!(p.len(), 2);
    assert_eq!(p.add(30, true, "c"), vec![(10, vec![], vec!["b"]), (20, vec!["a"], vec![])]);
    let mut q: PendingTicks<&str> = PendingTicks::new();
    assert!(q.add(5, true, "m5").is_empty());
    assert!(q.add(3, false, "s3").is_empty());
    // tick 3 is complete once a row of tick 5 arrives
    assert_eq!(q.add(5, false, "s5"), vec![(3, vec![], vec!["s3"])]);
    assert_eq!(q.len(), 1);
    let done = q.add(7, true, "m7");
    assert_eq!(done, vec![(5, vec!["m5"], vec!["s5"])]);
    assert_eq!(q.len(), 1);
    let rest = q.drain();
    assert_eq!(rest, vec![(7, vec!["m7"], vec![])]);
    assert_eq!(q.len(), 0);
}

#[test]
fn log_files_and_json_merging() {
    assert_eq!(session_file("logs/s1", "robots", "csv"), "logs/s1/robots.csv");
    assert_eq!(json_merge_plan(JsonKind::Object, JsonKind::Object), JsonMerge::InsertKeys);
    assert_eq!(json_merge_plan(JsonKind::Object, JsonKind::Array), JsonMerge::WrapInArray);
    assert_eq!(json_merge_plan(JsonKind::Array, JsonKind::Object), JsonMerge::Push);
    assert_eq!(json_merge_plan(JsonKind::Null, JsonKind::Scalar), JsonMerge::Replace);
    assert_eq!(json_merge_plan(JsonKind::Scalar, JsonKind::Null), JsonMerge::WrapInArray);
}

#[test]
fn logger_error_messages() {
    assert_eq!(LoggerError::SessionNotActive.message(), "No active logging session");
    assert_eq!(LoggerError::ChannelError.message(), "Communication channel error");
    assert_eq!(LoggerError::RegistryError("x".to_string()).message(), "Registry error: x");
    let io = std::io::Error::new(std::io::ErrorKind::Other, "disk full");
    assert_eq!(LoggerError::IoError(io).message(), "IO error: disk full");
}

#[test]
fn interface_toggle_panel_twice() {
    let mut app = EngineApp::new(100);
    app.update(Message::Sidebar(SidebarMessage::TogglePanel(SidebarPanel::Vision)));
    let a = app.update(Message::Sidebar(SidebarMessage::TogglePanel(SidebarPanel::Charts)));
    assert!(matches!(a.as_slice(), [UiAction::OpenPanelWindow(SidebarPanel::Charts)]));
    assert_eq!(app.sidebar.active_panel, Some(SidebarPanel::Charts));
    let a = app.update(Message::Sidebar(SidebarMessage::TogglePanel(SidebarPanel::Charts)));
    assert!(matches!(a.as_slice(), [UiAction::ClosePanelWindow(SidebarPanel::Charts)]));
    assert_eq!(app.open_panels, vec![SidebarPanel::Vision]);
    assert_eq!(app.sidebar.active_panel, None);
    // the console toggles without a window
    let a = app.update(Message::Sidebar(SidebarMessage::TogglePanel(SidebarPanel::LuaConsole)));
    assert!(a.is_empty());
    assert!(app.lua_console.is_shown());
    // a panel window closed by the user is forgotten
    app.update(Message::PanelWindowClosed(SidebarPanel::Vision));
    assert!(app.open_panels.is_empty());
}

#[test]
fn interface_bottom_bar_highlight() {
    let mut app = EngineApp::new(10);
    app.update(Message::BottomPanel(BottomPanelMessage::RobotIdChanged("4x".to_string())));
    assert_eq!(app.bottom_panel.control_robot_id, "4");
    assert_eq!(app.highlight_robot, None);
    app.update(Message::BottomPanel(BottomPanelMessage::SetHighlight(true)));
    assert_eq!(app.highlight_robot, Some((4, 0)));
    app.update(Message::BottomPanel(BottomPanelMessage::TeamSelected(Team::Yellow)));
    assert_eq!(app.highlight_robot, Some((4, 1)));
    app.update(Message::BottomPanel(BottomPanelMessage::DecrementRobotId));
    assert_eq!(app.highlight_robot, Some((3, 1)));
    assert_eq!(app.control_panel.robot_id, "3");
    let a = app.update(Message::BottomPanel(BottomPanelMessage::SetTrace(true)));
    assert!(matches!(a.as_slice(), [UiAction::ClearRobotTrace]));
    app.update(Message::BottomPanel(BottomPanelMessage::SetHighlight(false)));
    assert_eq!(app.highlight_robot, None);
}

#[test]
fn chart_labels_and_live_buffer() {
    assert_eq!(PlotVariable::Theta.label(), "θ");
    assert_eq!(PlotVariable::CmdAngular.label(), "Cmd ω");
    assert_eq!(PlotVariable::Time.label(), "Time");
    let mut b: LiveBuffer<u32> = LiveBuffer::new();
    for i in 0..(LIVE_BUFFER_SIZE as u32 + 5) {
        b.push(i);
    }
    assert_eq!(b.len(), LIVE_BUFFER_SIZE);
    assert_eq!(*b.get(0), 5);
    assert_eq!(*b.get(LIVE_BUFFER_SIZE - 1), LIVE_BUFFER_SIZE as u32 + 4);
    b.clear();
    assert_eq!(b.len(), 0);
}

#[test]
fn planner_get_path() {
    let planner = FastPathPlanner::new(3);
    let collides = |a: i32, b: i32| (b - a).abs() > 4;
    let mid = |a: i32, b: i32| Some((a + b) / 2);
    let none = |_: i32, _: i32| None;
    assert_eq!(planner.get_path(0, 10, &collides, &mid, &mid), vec![0, 2, 5, 7, 10]);
    // the right side is longer than the empty left side, so the left side is kept
    assert_eq!(planner.get_path(0, 10, &collides, &mid, &none), vec![0, 10]);
    // a free segment stays a single piece
    assert_eq!(planner.get_path(0, 3, &collides, &none, &none), vec![0, 3]);
    // shortening skips waypoints reachable in a straight free segment
    let wide = |a: i32, b: i32| (b - a).abs() > 6;
    assert_eq!(planner.get_path(0, 12, &wide, &mid, &mid), vec![0, 6, 12]);
    let far = FastPathPlanner::new(2);
    assert_eq!(far.get_path(0, 12, &collides, &mid, &mid), vec![0, 3, 6, 9, 12]);
}

#[test]
fn logging_session_writes_ticks_in_order() {
    let mut p: PendingTicks<u32> = PendingTicks::new();
    let events = [(0, true, 1), (0, false, 2), (16, true, 3), (16, true, 4), (33, false, 5), (50, true, 6)];
    let mut written: Vec<(i64, Vec<u32>, Vec<u32>)> = Vec::new();
    for (tick, is_main, row) in events {
        written.extend(p.add(tick, is_main, row));
        assert!(p.len() <= 1);
    }
    written.extend(p.drain());
    assert_eq!(
        written,
        vec![(0, vec![1], vec![2]), (16, vec![3, 4], vec![]), (33, vec![], vec![5]), (50, vec![6], vec![])]
    );
}
