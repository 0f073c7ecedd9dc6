//! Sidebar state: which panel the sidebar shows as active.
use vstd::prelude::*;

verus! {

/// The panels the sidebar can open.
#[derive(Clone, Copy, Debug, PartialEq, Eq, Hash, Structural)]
pub enum SidebarPanel {
    Vision,
    Radio,
    Kalman,
    Recording,
    Control,
    Charts,
    LuaConsole,
}

#[derive(Clone, Copy, Debug, PartialEq, Eq, Structural)]
pub enum SidebarMessage {
    TogglePanel(SidebarPanel),
    ToggleReplayMode,
}

pub struct Sidebar {
    pub active_panel: Option<SidebarPanel>,
}

/// The active panel after toggling `panel`: toggling the active panel clears
/// it, toggling any other panel makes that one active.
pub open spec fn toggled(active: Option<SidebarPanel>, panel: SidebarPanel) -> Option<SidebarPanel> {
    if active == Some(panel) {
        None
    } else {
        Some(panel)
    }
}

impl Sidebar {
    /// A sidebar with no active panel.
    pub fn new() -> (s: Self)
        ensures
            s.active_panel is None,
    {
        Sidebar { active_panel: None }
    }

    /// Toggles `panel`.
    pub fn toggle(&mut self, panel: SidebarPanel)
        ensures
            final(self).active_panel == toggled(old(self).active_panel, panel),
    {
        let is_active = match self.active_panel {
            Some(p) => p == panel,
            None => false,
        };
        if is_active {
            self.active_panel = None;
        } else {
            self.active_panel = Some(panel);
        }
    }
}

/// Toggling the same panel twice gives back the active panel that was there
/// before, when that was none or this very panel; from any other active
/// panel it ends with none.
pub proof fn lemma_toggle_twice(active: Option<SidebarPanel>, panel: SidebarPanel)
    ensures
        (active is None || active == Some(panel)) ==> toggled(toggled(active, panel), panel)
            == active,
        (active is Some && active != Some(panel)) ==> toggled(toggled(active, panel), panel)
            is None,
{
}

} // verus!
