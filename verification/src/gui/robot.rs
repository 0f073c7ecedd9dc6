//! Robot teams as the field view draws them.
use vstd::prelude::*;

verus! {

#[derive(Clone, Copy, Debug, PartialEq, Eq, Structural)]
pub enum RobotTeam {
    Blue,
    Yellow,
}

} // verus!
