//! Lifecycle of the strategy script: loading, running, pausing and failure.
//!
//! The Lua interpreter itself runs outside this module; it reports what
//! happened (script loaded or not, `process()` succeeded or not) and this
//! module decides the script state and what the engine does next.
use vstd::prelude::*;
use vstd::string::*;

verus! {

#[derive(Clone, Copy, Debug, PartialEq, Eq, Structural)]
pub enum ScriptExecState {
    NoScript,
    Running,
    Paused,
    Failed,
}

/// What happened when `process()` was called.
#[derive(Clone, Copy, Debug, PartialEq, Eq, Structural)]
pub enum ProcessOutcome {
    Completed,
    /// `process()` raised a runtime error.
    RuntimeError,
    /// The script defines no `process()` function.
    Missing,
}

/// What the engine does on a frame.
#[derive(Clone, Copy, Debug, PartialEq, Eq, Structural)]
pub enum FrameAction {
    /// No script is loaded: nothing.
    Idle,
    /// Call the script's `process()` and report the outcome.
    CallProcess,
    /// The script is paused: command zero velocity to every robot.
    StopRobots,
}

/// Teams the engine commands.
pub const NUM_TEAMS: i32 = 2;

/// Robots per team the engine commands.
pub const ROBOTS_PER_TEAM: i32 = 6;

#[derive(Clone, Copy, Debug, PartialEq, Eq, Structural)]
pub struct ScriptControl {
    pub have_script: bool,
    pub is_paused: bool,
    pub has_failed: bool,
}

/// The state reported for the flags: a failure wins, then a missing script,
/// then pausing.
pub open spec fn exec_state(c: ScriptControl) -> ScriptExecState {
    if c.has_failed {
        ScriptExecState::Failed
    } else if !c.have_script {
        ScriptExecState::NoScript
    } else if c.is_paused {
        ScriptExecState::Paused
    } else {
        ScriptExecState::Running
    }
}

/// Flags after a script load that did (`loaded`) or did not complete.
pub open spec fn after_load(loaded: bool) -> ScriptControl {
    ScriptControl { have_script: loaded, is_paused: true, has_failed: !loaded }
}

/// Flags after a pause request.
pub open spec fn after_pause(c: ScriptControl) -> ScriptControl {
    if c.have_script {
        ScriptControl { is_paused: true, has_failed: false, ..c }
    } else {
        c
    }
}

/// Flags after a resume request.
pub open spec fn after_resume(c: ScriptControl) -> ScriptControl {
    if c.have_script {
        ScriptControl { is_paused: false, has_failed: false, ..c }
    } else {
        c
    }
}

/// The robots that receive a zero-velocity command while the script is
/// paused: ids `0..6` of team 0, then of team 1.
pub open spec fn stop_targets() -> Seq<(i32, i32)> {
    Seq::new(
        (NUM_TEAMS * ROBOTS_PER_TEAM) as nat,
        |k: int| ((k % ROBOTS_PER_TEAM as int) as i32, (k / ROBOTS_PER_TEAM as int) as i32),
    )
}

impl ScriptControl {
    /// No script loaded.
    pub fn new() -> (c: Self)
        ensures
            !c.have_script,
            !c.is_paused,
            !c.has_failed,
            exec_state(c) == ScriptExecState::NoScript,
    {
        ScriptControl { have_script: false, is_paused: false, has_failed: false }
    }

    pub fn script_state(&self) -> (s: ScriptExecState)
        ensures
            s == exec_state(*self),
    {
        if self.has_failed {
            ScriptExecState::Failed
        } else if !self.have_script {
            ScriptExecState::NoScript
        } else if self.is_paused {
            ScriptExecState::Paused
        } else {
            ScriptExecState::Running
        }
    }

    /// A script was (re)loaded; `loaded` tells whether it ran to completion.
    /// A newly loaded script waits paused until it is resumed; a script that
    /// fails to load leaves no script and a failure.
    pub fn run_script(&mut self, loaded: bool) -> (s: ScriptExecState)
        ensures
            *final(self) == after_load(loaded),
            s == exec_state(*final(self)),
            s == (if loaded { ScriptExecState::Paused } else { ScriptExecState::Failed }),
    {
        self.is_paused = true;
        self.has_failed = false;
        if loaded {
            self.have_script = true;
        } else {
            self.have_script = false;
            self.has_failed = true;
        }
        self.script_state()
    }

    /// What to do on this frame.
    pub fn frame_action(&self) -> (a: FrameAction)
        ensures
            a == (if !self.have_script {
                FrameAction::Idle
            } else if self.is_paused {
                FrameAction::StopRobots
            } else {
                FrameAction::CallProcess
            }),
    {
        if !self.have_script {
            FrameAction::Idle
        } else if self.is_paused {
            FrameAction::StopRobots
        } else {
            FrameAction::CallProcess
        }
    }

    /// Records the outcome of `process()`: an error or a missing `process()`
    /// pauses the script and marks it failed.
    pub fn process_finished(&mut self, outcome: ProcessOutcome) -> (s: ScriptExecState)
        ensures
            final(self).have_script == old(self).have_script,
            outcome == ProcessOutcome::Completed ==> *final(self) == *old(self),
            outcome != ProcessOutcome::Completed ==> final(self).is_paused && final(self).has_failed,
            s == exec_state(*final(self)),
    {
        match outcome {
            ProcessOutcome::Completed => {},
            _ => {
                self.is_paused = true;
                self.has_failed = true;
            },
        }
        self.script_state()
    }

    /// Pauses a loaded script and clears a failure; returns whether there was
    /// a script (the engine then stops robot 0 of team 0).
    pub fn pause_script(&mut self) -> (paused: bool)
        ensures
            paused == old(self).have_script,
            *final(self) == after_pause(*old(self)),
    {
        if !self.have_script {
            return false;
        }
        self.is_paused = true;
        self.has_failed = false;
        true
    }

    /// Resumes a loaded script and clears a failure; returns whether there was
    /// a script.
    pub fn resume_script(&mut self) -> (resumed: bool)
        ensures
            resumed == old(self).have_script,
            *final(self) == after_resume(*old(self)),
    {
        if !self.have_script {
            return false;
        }
        self.is_paused = false;
        self.has_failed = false;
        true
    }
}

/// The (id, team) pairs that receive a zero-velocity command while the
/// script is paused.
pub fn paused_stop_targets() -> (targets: Vec<(i32, i32)>)
    ensures
        targets@ == stop_targets(),
{
    let mut targets: Vec<(i32, i32)> = Vec::new();
    let mut team: i32 = 0;
    while team < NUM_TEAMS
        invariant
            0 <= team <= NUM_TEAMS,
            targets@ == stop_targets().take(team * ROBOTS_PER_TEAM),
        decreases NUM_TEAMS - team,
    {
        let mut id: i32 = 0;
        while id < ROBOTS_PER_TEAM
            invariant
                0 <= team < NUM_TEAMS,
                0 <= id <= ROBOTS_PER_TEAM,
                targets@ == stop_targets().take(team * ROBOTS_PER_TEAM + id),
            decreases ROBOTS_PER_TEAM - id,
        {
            targets.push((id, team));
            assert(stop_targets().take(team * ROBOTS_PER_TEAM + id + 1) =~= stop_targets().take(
                team * ROBOTS_PER_TEAM + id,
            ).push((id, team)));
            id += 1;
        }
        team += 1;
    }
    assert(stop_targets().take(NUM_TEAMS * ROBOTS_PER_TEAM) =~= stop_targets());
    targets
}

/// A script that loads waits paused; resuming it makes it run, and pausing
/// it again leaves it paused: from any state, load, resume and pause lead
/// through Paused, Running and Paused.
pub proof fn lemma_load_resume_pause()
    ensures
        exec_state(after_load(true)) == ScriptExecState::Paused,
        exec_state(after_resume(after_load(true))) == ScriptExecState::Running,
        exec_state(after_pause(after_resume(after_load(true)))) == ScriptExecState::Paused,
        exec_state(after_load(false)) == ScriptExecState::Failed,
{
}

/// Pausing and resuming do nothing without a script; with one, resuming
/// after a pause runs it whatever its earlier state, and pausing after a
/// resume pauses it.
pub proof fn lemma_pause_resume(c: ScriptControl)
    ensures
        !c.have_script ==> after_pause(c) == c && after_resume(c) == c,
        c.have_script ==> exec_state(after_resume(after_pause(c))) == ScriptExecState::Running,
        c.have_script ==> exec_state(after_pause(after_resume(c))) == ScriptExecState::Paused,
{
}

/// `s` with every backslash turned into a slash.
pub open spec fn forward_slashes(s: Seq<char>) -> Seq<char> {
    s.map_values(|c: char| if c == '\\' { '/' } else { c })
}

/// The Lua statement that lets a script `require` modules from its own
/// directory `dir`.
pub open spec fn package_path_statement(dir: Seq<char>) -> Seq<char> {
    "package.path = '"@ + forward_slashes(dir) + "/?.lua;' .. package.path"@
}

/// The Lua statement run before a script is loaded so that it can `require`
/// modules from its directory `dir` (written with forward slashes).
pub fn package_path_command(dir: &str) -> (cmd: String)
    ensures
        cmd@ == package_path_statement(dir@),
{
    let len = dir.unicode_len();
    let mut body = String::new();
    let mut i: usize = 0;
    while i < len
        invariant
            i <= len,
            len == dir@.len(),
            body@ == forward_slashes(dir@.take(i as int)),
        decreases len - i,
    {
        let c = dir.get_char(i);
        let ghost before = body@;
        let mapped = if c == '\\' { '/' } else { c };
        if c == '\\' {
            proof {
                reveal_strlit("/");
            }
            body.append("/");
        } else {
            let piece = dir.substring_char(i, i + 1);
            assert(piece@ =~= seq![c]);
            body.append(piece);
        }
        assert(body@ =~= before.push(mapped));
        assert(dir@.take(i + 1) =~= dir@.take(i as int).push(c));
        assert(body@ =~= forward_slashes(dir@.take(i + 1)));
        i += 1;
    }
    assert(dir@.take(len as int) =~= dir@);
    let mut cmd = "package.path = '".to_owned();
    cmd.append(body.as_str());
    cmd.append("/?.lua;' .. package.path");
    cmd
}

} // verus!
