//! Referee state fed by the SSL game controller.
use vstd::prelude::*;
use vstd::string::*;

verus! {

/// The name of a `Referee.Command` value, as the game controller protocol
/// numbers them; values outside the protocol map to `"UNKNOWN"`.
pub open spec fn command_name(cmd: int) -> Seq<char> {
    if cmd == 0 { "HALT"@ }
    else if cmd == 1 { "STOP"@ }
    else if cmd == 2 { "NORMAL_START"@ }
    else if cmd == 3 { "FORCE_START"@ }
    else if cmd == 4 { "PREPARE_KICKOFF_YELLOW"@ }
    else if cmd == 5 { "PREPARE_KICKOFF_BLUE"@ }
    else if cmd == 6 { "PREPARE_PENALTY_YELLOW"@ }
    else if cmd == 7 { "PREPARE_PENALTY_BLUE"@ }
    else if cmd == 8 { "DIRECT_FREE_YELLOW"@ }
    else if cmd == 9 { "DIRECT_FREE_BLUE"@ }
    else if cmd == 12 { "TIMEOUT_YELLOW"@ }
    else if cmd == 13 { "TIMEOUT_BLUE"@ }
    else if cmd == 14 { "GOAL_YELLOW"@ }
    else if cmd == 15 { "GOAL_BLUE"@ }
    else if cmd == 16 { "BALL_PLACEMENT_YELLOW"@ }
    else if cmd == 17 { "BALL_PLACEMENT_BLUE"@ }
    else { "UNKNOWN"@ }
}

/// `s` ends with `suffix`.
pub open spec fn ends_with(s: Seq<char>, suffix: Seq<char>) -> bool {
    s.len() >= suffix.len() && s.skip(s.len() - suffix.len()) == suffix
}

/// The protocol's names of the referee commands: halt, stop, normal and
/// forced start, then kickoff, penalty and direct free kick for yellow (even
/// numbers) and blue (odd numbers), timeout, goal and ball placement; 10, 11
/// and any number outside the protocol are unknown.
pub proof fn lemma_command_names()
    ensures
        command_name(0) == "HALT"@,
        command_name(1) == "STOP"@,
        command_name(2) == "NORMAL_START"@,
        command_name(3) == "FORCE_START"@,
        command_name(4) == "PREPARE_KICKOFF_YELLOW"@,
        command_name(5) == "PREPARE_KICKOFF_BLUE"@,
        command_name(6) == "PREPARE_PENALTY_YELLOW"@,
        command_name(7) == "PREPARE_PENALTY_BLUE"@,
        command_name(8) == "DIRECT_FREE_YELLOW"@,
        command_name(9) == "DIRECT_FREE_BLUE"@,
        command_name(10) == "UNKNOWN"@,
        command_name(11) == "UNKNOWN"@,
        command_name(12) == "TIMEOUT_YELLOW"@,
        command_name(13) == "TIMEOUT_BLUE"@,
        command_name(14) == "GOAL_YELLOW"@,
        command_name(15) == "GOAL_BLUE"@,
        command_name(16) == "BALL_PLACEMENT_YELLOW"@,
        command_name(17) == "BALL_PLACEMENT_BLUE"@,
        forall|cmd: int| (cmd < 0 || cmd > 17) ==> #[trigger] command_name(cmd) == "UNKNOWN"@,
{
}

/// Team commands name their team by parity: for the kickoff, penalty, free
/// kick, timeout, goal and ball placement commands (4 to 9 and 12 to 17), an
/// even number is yellow's and an odd number is blue's.
pub proof fn lemma_command_team_parity(cmd: int)
    requires
        4 <= cmd <= 9 || 12 <= cmd <= 17,
    ensures
        cmd % 2 == 0 ==> ends_with(command_name(cmd), "_YELLOW"@),
        cmd % 2 == 1 ==> ends_with(command_name(cmd), "_BLUE"@),
{
    reveal_strlit("_YELLOW");
    reveal_strlit("_BLUE");
    reveal_strlit("PREPARE_KICKOFF_YELLOW");
    reveal_strlit("PREPARE_KICKOFF_BLUE");
    reveal_strlit("PREPARE_PENALTY_YELLOW");
    reveal_strlit("PREPARE_PENALTY_BLUE");
    reveal_strlit("DIRECT_FREE_YELLOW");
    reveal_strlit("DIRECT_FREE_BLUE");
    reveal_strlit("TIMEOUT_YELLOW");
    reveal_strlit("TIMEOUT_BLUE");
    reveal_strlit("GOAL_YELLOW");
    reveal_strlit("GOAL_BLUE");
    reveal_strlit("BALL_PLACEMENT_YELLOW");
    reveal_strlit("BALL_PLACEMENT_BLUE");
    let s = command_name(cmd);
    if cmd % 2 == 0 {
        assert(s.skip(s.len() - 7) =~= "_YELLOW"@);
    } else {
        assert(s.skip(s.len() - 5) =~= "_BLUE"@);
    }
}

/// Converts a `Referee.Command` enum value to its protocol name.
pub fn command_to_string(cmd: i32) -> (s: &'static str)
    ensures
        s@ == command_name(cmd as int),
{
    match cmd {
        0 => "HALT",
        1 => "STOP",
        2 => "NORMAL_START",
        3 => "FORCE_START",
        4 => "PREPARE_KICKOFF_YELLOW",
        5 => "PREPARE_KICKOFF_BLUE",
        6 => "PREPARE_PENALTY_YELLOW",
        7 => "PREPARE_PENALTY_BLUE",
        8 => "DIRECT_FREE_YELLOW",
        9 => "DIRECT_FREE_BLUE",
        12 => "TIMEOUT_YELLOW",
        13 => "TIMEOUT_BLUE",
        14 => "GOAL_YELLOW",
        15 => "GOAL_BLUE",
        16 => "BALL_PLACEMENT_YELLOW",
        17 => "BALL_PLACEMENT_BLUE",
        _ => "UNKNOWN",
    }
}

/// Holder for the current referee command string.
pub struct GameState {
    ref_command: String,
}

impl GameState {
    /// The command string currently held.
    pub closed spec fn ref_message(&self) -> Seq<char> {
        self.ref_command@
    }

    /// A state with no command received yet (the empty string).
    pub fn new() -> (gs: Self)
        ensures
            gs.ref_message() == Seq::<char>::empty(),
    {
        GameState { ref_command: String::new() }
    }

    /// The current referee command string.
    pub fn get_ref_message(&self) -> (s: &str)
        ensures
            s@ == self.ref_message(),
    {
        self.ref_command.as_str()
    }

    /// Replaces the current referee command string.
    pub fn set_ref_command(&mut self, cmd: String)
        ensures
            final(self).ref_message() == cmd@,
    {
        self.ref_command = cmd;
    }

    /// Records a decoded referee command number: the state then holds its
    /// protocol name.
    pub fn apply_referee_command(&mut self, cmd: i32)
        ensures
            final(self).ref_message() == command_name(cmd as int),
    {
        let name = command_to_string(cmd);
        self.set_ref_command(name.to_owned());
    }
}

} // verus!
