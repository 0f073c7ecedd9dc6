//! Interactive console commands: `run <path>`, `pause`, `resume`, `reload`, `exit`.
use crate::text::{trim, trimmed};
use vstd::prelude::*;
use vstd::string::*;

verus! {

/// What the engine does for one console line.
#[derive(Clone, Debug)]
pub enum ConsoleAction {
    /// Blank line: nothing.
    Nothing,
    /// Run the script at this path.
    RunScript(String),
    PauseScript,
    ResumeScript,
    /// `run` without a path.
    MissingPath,
    /// `reload` before any script was run.
    NothingToReload,
    /// Leave the console.
    Exit,
    /// Any other input (trimmed).
    Unknown(String),
}

pub open spec fn starts_with_run(s: Seq<char>) -> bool {
    s.len() >= 4 && s.take(4) == "run "@
}

pub struct ConsoleReader {
    last_script_path: String,
}

impl ConsoleReader {
    pub closed spec fn last_script(&self) -> Seq<char> {
        self.last_script_path@
    }

    pub fn new() -> (c: Self)
        ensures
            c.last_script() == Seq::<char>::empty(),
    {
        ConsoleReader { last_script_path: String::new() }
    }

    /// Handles one line read from the console. The line is trimmed; `run`
    /// followed by a space and a path (itself trimmed) runs that script and
    /// remembers it; `reload` runs the remembered script again.
    pub fn handle_line(&mut self, line: &str) -> (action: ConsoleAction)
        ensures
            ({
                let l = trimmed(line@);
                if l.len() == 0 {
                    action is Nothing && final(self).last_script() == old(self).last_script()
                } else if starts_with_run(l) {
                    let path = trimmed(l.skip(4));
                    if path.len() > 0 {
                        &&& action matches ConsoleAction::RunScript(p) && p@ == path
                        &&& final(self).last_script() == path
                    } else {
                        action is MissingPath && final(self).last_script() == old(
                            self,
                        ).last_script()
                    }
                } else {
                    &&& final(self).last_script() == old(self).last_script()
                    &&& if l == "pause"@ {
                        action is PauseScript
                    } else if l == "resume"@ {
                        action is ResumeScript
                    } else if l == "reload"@ {
                        if old(self).last_script().len() > 0 {
                            action matches ConsoleAction::RunScript(p) && p@ == old(
                                self,
                            ).last_script()
                        } else {
                            action is NothingToReload
                        }
                    } else if l == "exit"@ {
                        action is Exit
                    } else {
                        action matches ConsoleAction::Unknown(u) && u@ == l
                    }
                }
            }),
    {
        proof {
            reveal_strlit("run ");
            reveal_strlit("pause");
            reveal_strlit("resume");
            reveal_strlit("reload");
            reveal_strlit("exit");
        }
        let l = trim(line);
        let len = l.unicode_len();
        if len == 0 {
            return ConsoleAction::Nothing;
        }
        let is_run = len >= 4 && l.get_char(0) == 'r' && l.get_char(1) == 'u' && l.get_char(2)
            == 'n' && l.get_char(3) == ' ';
        proof {
            if is_run {
                assert(l@.take(4) =~= "run "@);
            } else if len >= 4 {
                if l@.take(4) == "run "@ {
                    assert(l@.take(4)[0] == 'r' && l@.take(4)[1] == 'u');
                    assert(l@.take(4)[2] == 'n' && l@.take(4)[3] == ' ');
                }
            }
        }
        if is_run {
            let rest = l.substring_char(4, len);
            assert(rest@ =~= l@.skip(4));
            let path = trim(rest);
            if path.unicode_len() > 0 {
                let p = path.to_owned();
                self.last_script_path = path.to_owned();
                return ConsoleAction::RunScript(p);
            } else {
                return ConsoleAction::MissingPath;
            }
        }
        let owned = l.to_owned();
        if owned == "pause".to_owned() {
            ConsoleAction::PauseScript
        } else if owned == "resume".to_owned() {
            ConsoleAction::ResumeScript
        } else if owned == "reload".to_owned() {
            if self.last_script_path.as_str().unicode_len() > 0 {
                ConsoleAction::RunScript(self.last_script_path.clone())
            } else {
                ConsoleAction::NothingToReload
            }
        } else if owned == "exit".to_owned() {
            ConsoleAction::Exit
        } else {
            ConsoleAction::Unknown(owned)
        }
    }
}

} // verus!
