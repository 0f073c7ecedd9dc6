//! Settings panels: manual control, Kalman filter, radio, recording and vision.
use crate::gui::types::EngineRequest;
use crate::text::{parse_i32, parse_int_spec, parse_u16, parse_u32};
use vstd::prelude::*;

verus! {

#[derive(Clone, Copy, Debug, PartialEq, Eq, Structural)]
pub enum ControlMode {
    Xbox,
    Keyboard,
}

#[derive(Clone, Copy, Debug, PartialEq, Eq, Structural)]
pub enum Team {
    Blue,
    Yellow,
}

/// The protocol number of a team: 0 for blue, 1 for yellow.
pub open spec fn team_id(team: Team) -> int {
    match team {
        Team::Blue => 0,
        Team::Yellow => 1,
    }
}

impl Team {
    /// The protocol number of the team: 0 for blue, 1 for yellow.
    pub fn to_id(self) -> (id: i32)
        ensures
            id == team_id(self),
    {
        match self {
            Team::Blue => 0,
            Team::Yellow => 1,
        }
    }
}

#[derive(Clone, Debug)]
pub enum ControlMessage {
    ModeSelected(ControlMode),
    ScaleVxChanged(String),
    ScaleVyChanged(String),
    ScaleWChanged(String),
}

/// The value `str::parse::<i32>` gives for `s`, or 0 when it fails.
pub open spec fn parsed_i32_or_zero(s: Seq<char>) -> int {
    match parse_int_spec(s, i32::MIN as int, i32::MAX as int, true) {
        Some(v) => v,
        None => 0,
    }
}

#[derive(Clone, Debug)]
pub struct ControlPanel {
    pub mode: ControlMode,
    pub active: bool,
    pub team: Team,
    pub robot_id: String,
    pub scale_vx: String,
    pub scale_vy: String,
    pub scale_w: String,
    pub vis_velocities: bool,
}

/// The control panel's settings at start-up.
pub open spec fn control_default(p: ControlPanel) -> bool {
    &&& p.mode == ControlMode::Keyboard
    &&& !p.active
    &&& p.team == Team::Blue
    &&& p.robot_id@ == "0"@
    &&& p.scale_vx@ == "1.0"@
    &&& p.scale_vy@ == "1.0"@
    &&& p.scale_w@ == "1.0"@
    &&& !p.vis_velocities
}

impl Default for ControlPanel {
    /// Keyboard mode, inactive, blue robot "0", all scales "1.0".
    fn default() -> (p: Self)
        ensures
            control_default(p),
    {
        ControlPanel {
            mode: ControlMode::Keyboard,
            active: false,
            team: Team::Blue,
            robot_id: "0".to_owned(),
            scale_vx: "1.0".to_owned(),
            scale_vy: "1.0".to_owned(),
            scale_w: "1.0".to_owned(),
            vis_velocities: false,
        }
    }
}

impl ControlPanel {
    /// The robot id typed in the panel, or 0 when it is not an `i32`.
    pub fn robot_id_parsed(&self) -> (id: i32)
        ensures
            id == parsed_i32_or_zero(self.robot_id@),
    {
        match parse_i32(self.robot_id.as_str()) {
            Some(v) => v,
            None => 0,
        }
    }
}

#[derive(Clone, Debug)]
pub enum KalmanMessage {
    EnabledToggled(bool),
    ProcessNoisePChanged(String),
    ProcessNoiseVChanged(String),
    MeasurementNoiseChanged(String),
    Update,
}

#[derive(Clone, Debug)]
pub struct KalmanPanel {
    pub enabled: bool,
    pub process_noise_p: String,
    pub process_noise_v: String,
    pub measurement_noise: String,
}

/// The Kalman filter panel's settings at start-up.
pub open spec fn kalman_default(p: KalmanPanel) -> bool {
    &&& p.enabled
    &&& p.process_noise_p@ == "0.0000001"@
    &&& p.process_noise_v@ == "0.0001"@
    &&& p.measurement_noise@ == "0.000001"@
}

impl Default for KalmanPanel {
    /// Enabled, with the tracker's default noise settings.
    fn default() -> (p: Self)
        ensures
            kalman_default(p),
    {
        KalmanPanel {
            enabled: true,
            process_noise_p: "0.0000001".to_owned(),
            process_noise_v: "0.0001".to_owned(),
            measurement_noise: "0.000001".to_owned(),
        }
    }
}

#[derive(Clone, Debug)]
pub enum RadioMessage {
    PortNameChanged(String),
    BaudRateChanged(String),
    UseRadioToggled(bool),
    Update,
}

#[derive(Clone, Debug)]
pub struct RadioPanel {
    pub port_name: String,
    pub baud_rate: String,
    pub use_radio: bool,
}

/// Baud rate used when the panel's text is not a `u32`.
pub const DEFAULT_BAUD_RATE: u32 = 115200;

/// The radio panel's settings at start-up.
pub open spec fn radio_default(p: RadioPanel) -> bool {
    &&& p.port_name@ == "/dev/ttyUSB0"@
    &&& p.baud_rate@ == "115200"@
    &&& !p.use_radio
}

impl Default for RadioPanel {
    /// `/dev/ttyUSB0` at 115200 baud, radio off (simulator).
    fn default() -> (p: Self)
        ensures
            radio_default(p),
    {
        RadioPanel {
            port_name: "/dev/ttyUSB0".to_owned(),
            baud_rate: "115200".to_owned(),
            use_radio: false,
        }
    }
}

impl RadioPanel {
    /// The baud rate typed in the panel, or 115200 when it is not a `u32`.
    pub fn baud_rate_parsed(&self) -> (b: u32)
        ensures
            b == (match parse_int_spec(self.baud_rate@, 0, u32::MAX as int, false) {
                Some(v) => v,
                None => DEFAULT_BAUD_RATE as int,
            }),
    {
        match parse_u32(self.baud_rate.as_str()) {
            Some(v) => v,
            None => DEFAULT_BAUD_RATE,
        }
    }
}

#[derive(Clone, Debug)]
pub enum RecordingMessage {
    FilenameChanged(String),
    Start,
    Stop,
}

#[derive(Clone, Copy, Debug, PartialEq, Eq, Structural)]
pub enum RecordingStatus {
    Idle,
    Recording,
    Saved,
}

#[derive(Clone, Debug)]
pub struct RecordingPanel {
    pub filename: String,
    pub status: RecordingStatus,
}

/// The recording panel's settings at start-up.
pub open spec fn recording_default(p: RecordingPanel) -> bool {
    &&& p.filename@ == "record.csv"@
    &&& p.status == RecordingStatus::Idle
}

impl Default for RecordingPanel {
    /// File `record.csv`, idle.
    fn default() -> (p: Self)
        ensures
            recording_default(p),
    {
        RecordingPanel { filename: "record.csv".to_owned(), status: RecordingStatus::Idle }
    }
}

#[derive(Clone, Debug)]
pub enum VisionMessage {
    IpChanged(String),
    PortChanged(String),
    Reconnect,
}

#[derive(Clone, Debug)]
pub struct VisionPanel {
    pub ip: String,
    pub port: String,
    pub connected: bool,
    pub pps: u32,
}

/// The vision panel's settings at start-up.
pub open spec fn vision_default(p: VisionPanel) -> bool {
    &&& p.ip@ == "224.5.23.2"@
    &&& p.port@ == "10020"@
    &&& !p.connected
    &&& p.pps == 0
}

impl Default for VisionPanel {
    /// The SSL-Vision multicast group `224.5.23.2:10020`, disconnected.
    fn default() -> (p: Self)
        ensures
            vision_default(p),
    {
        VisionPanel {
            ip: "224.5.23.2".to_owned(),
            port: "10020".to_owned(),
            connected: false,
            pps: 0,
        }
    }
}

impl VisionPanel {
    /// The port typed in the panel, when it is a `u16`.
    pub fn port_parsed(&self) -> (p: Option<u16>)
        ensures
            p matches Some(v) ==> parse_int_spec(self.port@, 0, u16::MAX as int, false) == Some(
                v as int,
            ),
            p is None ==> parse_int_spec(self.port@, 0, u16::MAX as int, false) is None,
    {
        parse_u16(self.port.as_str())
    }
}

/// The vision panel after `msg`, and the request it sends.
pub open spec fn vision_step(
    old: VisionPanel,
    new: VisionPanel,
    msg: VisionMessage,
    req: Option<EngineRequest>,
) -> bool {
    &&& new.connected == old.connected
    &&& new.pps == old.pps
    &&& match msg {
        VisionMessage::IpChanged(ip) => new.ip == ip && new.port == old.port && req is None,
        VisionMessage::PortChanged(port) => new.ip == old.ip && new.port == port && req is None,
        VisionMessage::Reconnect => {
            &&& new.ip == old.ip
            &&& new.port == old.port
            &&& match parse_int_spec(old.port@, 0, u16::MAX as int, false) {
                Some(p) => req matches Some(EngineRequest::UpdateVisionConnection { ip, port })
                    && ip@ == old.ip@ && port as int == p,
                None => req is None,
            }
        },
    }
}

impl VisionPanel {
    /// Edits the address or asks the engine to reconnect (only when the port
    /// is a valid `u16`).
    pub fn update(&mut self, msg: VisionMessage) -> (req: Option<EngineRequest>)
        ensures
            vision_step(*old(self), *final(self), msg, req),
    {
        match msg {
            VisionMessage::IpChanged(ip) => {
                self.ip = ip;
                None
            },
            VisionMessage::PortChanged(port) => {
                self.port = port;
                None
            },
            VisionMessage::Reconnect => match self.port_parsed() {
                Some(port) => Some(EngineRequest::UpdateVisionConnection { ip: self.ip.clone(), port }),
                None => None,
            },
        }
    }
}

/// The radio panel after `msg`, and the request it sends.
pub open spec fn radio_step(
    old: RadioPanel,
    new: RadioPanel,
    msg: RadioMessage,
    req: Option<EngineRequest>,
) -> bool {
    match msg {
        RadioMessage::PortNameChanged(n) => new == RadioPanel { port_name: n, ..old } && req is None,
        RadioMessage::BaudRateChanged(b) => new == RadioPanel { baud_rate: b, ..old } && req is None,
        RadioMessage::UseRadioToggled(u) => new == RadioPanel { use_radio: u, ..old } && req is None,
        RadioMessage::Update => {
            &&& new == old
            &&& req matches Some(EngineRequest::UpdateRadioConfig { use_radio, port_name, baud_rate })
            &&& use_radio == old.use_radio
            &&& port_name@ == old.port_name@
            &&& baud_rate as int == match parse_int_spec(old.baud_rate@, 0, u32::MAX as int, false) {
                Some(v) => v,
                None => DEFAULT_BAUD_RATE as int,
            }
        },
    }
}

impl RadioPanel {
    /// Edits the settings or sends them to the engine (an unreadable baud rate
    /// is sent as 115200).
    pub fn update(&mut self, msg: RadioMessage) -> (req: Option<EngineRequest>)
        ensures
            radio_step(*old(self), *final(self), msg, req),
    {
        match msg {
            RadioMessage::PortNameChanged(n) => {
                self.port_name = n;
                None
            },
            RadioMessage::BaudRateChanged(b) => {
                self.baud_rate = b;
                None
            },
            RadioMessage::UseRadioToggled(u) => {
                self.use_radio = u;
                None
            },
            RadioMessage::Update => {
                let baud = self.baud_rate_parsed();
                Some(
                    EngineRequest::UpdateRadioConfig {
                        use_radio: self.use_radio,
                        port_name: self.port_name.clone(),
                        baud_rate: baud,
                    },
                )
            },
        }
    }
}

/// The Kalman panel after `msg`, and the request it sends.
pub open spec fn kalman_step(
    old: KalmanPanel,
    new: KalmanPanel,
    msg: KalmanMessage,
    req: Option<EngineRequest>,
) -> bool {
    match msg {
        KalmanMessage::EnabledToggled(e) => new == KalmanPanel { enabled: e, ..old } && req is None,
        KalmanMessage::ProcessNoisePChanged(v) => new == KalmanPanel { process_noise_p: v, ..old }
            && req is None,
        KalmanMessage::ProcessNoiseVChanged(v) => new == KalmanPanel { process_noise_v: v, ..old }
            && req is None,
        KalmanMessage::MeasurementNoiseChanged(v) => new == KalmanPanel {
            measurement_noise: v,
            ..old
        } && req is None,
        KalmanMessage::Update => {
            &&& new == old
            &&& req matches Some(
                EngineRequest::UpdateTrackerConfig {
                    enabled,
                    process_noise_p,
                    process_noise_v,
                    measurement_noise,
                },
            )
            &&& enabled == old.enabled
            &&& process_noise_p@ == old.process_noise_p@
            &&& process_noise_v@ == old.process_noise_v@
            &&& measurement_noise@ == old.measurement_noise@
        },
    }
}

impl KalmanPanel {
    /// Edits the tracker settings or sends them to the engine.
    pub fn update(&mut self, msg: KalmanMessage) -> (req: Option<EngineRequest>)
        ensures
            kalman_step(*old(self), *final(self), msg, req),
    {
        match msg {
            KalmanMessage::EnabledToggled(e) => {
                self.enabled = e;
                None
            },
            KalmanMessage::ProcessNoisePChanged(v) => {
                self.process_noise_p = v;
                None
            },
            KalmanMessage::ProcessNoiseVChanged(v) => {
                self.process_noise_v = v;
                None
            },
            KalmanMessage::MeasurementNoiseChanged(v) => {
                self.measurement_noise = v;
                None
            },
            KalmanMessage::Update => Some(
                EngineRequest::UpdateTrackerConfig {
                    enabled: self.enabled,
                    process_noise_p: self.process_noise_p.clone(),
                    process_noise_v: self.process_noise_v.clone(),
                    measurement_noise: self.measurement_noise.clone(),
                },
            ),
        }
    }
}

/// The recording panel after `msg`, and the request it sends.
pub open spec fn recording_step(
    old: RecordingPanel,
    new: RecordingPanel,
    msg: RecordingMessage,
    req: Option<EngineRequest>,
) -> bool {
    match msg {
        RecordingMessage::FilenameChanged(f) => new == RecordingPanel { filename: f, ..old }
            && req is None,
        RecordingMessage::Start => {
            &&& new.filename == old.filename
            &&& new.status == RecordingStatus::Recording
            &&& req matches Some(EngineRequest::StartRecording { filename })
            &&& filename@ == old.filename@
        },
        RecordingMessage::Stop => {
            &&& new.filename == old.filename
            &&& new.status == RecordingStatus::Saved
            &&& req matches Some(EngineRequest::StopRecording)
        },
    }
}

impl RecordingPanel {
    /// Edits the file name, or starts or stops a recording.
    pub fn update(&mut self, msg: RecordingMessage) -> (req: Option<EngineRequest>)
        ensures
            recording_step(*old(self), *final(self), msg, req),
    {
        match msg {
            RecordingMessage::FilenameChanged(f) => {
                self.filename = f;
                None
            },
            RecordingMessage::Start => {
                let req = EngineRequest::StartRecording { filename: self.filename.clone() };
                self.status = RecordingStatus::Recording;
                Some(req)
            },
            RecordingMessage::Stop => {
                self.status = RecordingStatus::Saved;
                Some(EngineRequest::StopRecording)
            },
        }
    }
}

/// The control panel after `msg`.
pub open spec fn control_step(old: ControlPanel, new: ControlPanel, msg: ControlMessage) -> bool {
    match msg {
        ControlMessage::ModeSelected(m) => new == ControlPanel { mode: m, ..old },
        ControlMessage::ScaleVxChanged(v) => new == ControlPanel { scale_vx: v, ..old },
        ControlMessage::ScaleVyChanged(v) => new == ControlPanel { scale_vy: v, ..old },
        ControlMessage::ScaleWChanged(v) => new == ControlPanel { scale_w: v, ..old },
    }
}

impl ControlPanel {
    /// Edits the control mode or a scale factor.
    pub fn update(&mut self, msg: ControlMessage)
        ensures
            control_step(*old(self), *final(self), msg),
    {
        match msg {
            ControlMessage::ModeSelected(m) => self.mode = m,
            ControlMessage::ScaleVxChanged(v) => self.scale_vx = v,
            ControlMessage::ScaleVyChanged(v) => self.scale_vy = v,
            ControlMessage::ScaleWChanged(v) => self.scale_w = v,
        }
    }
}

} // verus!
