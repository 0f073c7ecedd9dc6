//! Script toolbar state: script path, status and the packets-per-second history.
use vstd::prelude::*;

verus! {

/// Number of samples the packets-per-second sparkline keeps.
pub const PPS_HISTORY: usize = 60;

#[derive(Clone, Copy, Debug, PartialEq, Eq, Structural)]
pub enum ToolbarMessage {
    LoadScript,
    ToggleScript,
    ReloadScript,
}

#[derive(Clone, Copy, Debug, PartialEq, Eq, Structural)]
pub enum ScriptStatus {
    Idle,
    Loaded,
    Running,
    Paused,
    Error,
}

pub struct Toolbar {
    pub script_path: String,
    pub script_status: ScriptStatus,
    pub pps: u32,
    pub pps_history: Vec<u32>,
}

/// The toolbar at start-up: no script, idle, zero packets per second and a
/// history of 60 zeros.
pub open spec fn toolbar_initial(t: Toolbar) -> bool {
    &&& t.script_path@ == Seq::<char>::empty()
    &&& t.script_status == ScriptStatus::Idle
    &&& t.pps == 0
    &&& t.pps_history@ == Seq::new(PPS_HISTORY as nat, |i: int| 0u32)
}

impl Toolbar {
    /// No script, idle, zero packets per second and a history of 60 zeros.
    pub fn new() -> (t: Self)
        ensures
            toolbar_initial(t),
    {
        let mut history: Vec<u32> = Vec::new();
        let mut i: usize = 0;
        while i < PPS_HISTORY
            invariant
                i <= PPS_HISTORY,
                history@ == Seq::new(i as nat, |k: int| 0u32),
            decreases PPS_HISTORY - i,
        {
            history.push(0);
            i += 1;
            assert(history@ =~= Seq::new(i as nat, |k: int| 0u32));
        }
        Toolbar {
            script_path: String::new(),
            script_status: ScriptStatus::Idle,
            pps: 0,
            pps_history: history,
        }
    }

    /// Records a new packets-per-second reading: it becomes the current value
    /// and the newest history sample, and the oldest sample is dropped.
    pub fn push_pps(&mut self, pps: u32)
        requires
            old(self).pps_history@.len() > 0,
        ensures
            final(self).pps == pps,
            final(self).pps_history@ == old(self).pps_history@.drop_first().push(pps),
            final(self).pps_history@.len() == old(self).pps_history@.len(),
            final(self).script_path == old(self).script_path,
            final(self).script_status == old(self).script_status,
    {
        self.pps = pps;
        self.pps_history.remove(0);
        self.pps_history.push(pps);
        assert(old(self).pps_history@.remove(0) =~= old(self).pps_history@.drop_first());
    }
}

} // verus!
