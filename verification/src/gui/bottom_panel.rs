//! Bottom bar: overlay toggles and the robot selected for manual control.
use crate::gui::panels::{parsed_i32_or_zero, Team};
use crate::text::{
    decimal, digit_char, is_digit, lemma_signed_decimal_parses, parse_i32, signed_decimal,
    u64_to_decimal,
};
use vstd::prelude::*;
use vstd::string::*;

verus! {

/// Highest robot id the selector accepts.
pub const MAX_ROBOT_ID: i32 = 12;

#[derive(Clone, Debug)]
pub enum BottomPanelMessage {
    SetTrace(bool),
    SetVectors(bool),
    SetHighlight(bool),
    SetManualControl(bool),
    TeamSelected(Team),
    RobotIdChanged(String),
    IncrementRobotId,
    DecrementRobotId,
}

pub struct BottomPanel {
    pub trace_on: bool,
    pub vectors_on: bool,
    pub highlight_on: bool,
    pub manual_control_on: bool,
    pub control_robot_id: String,
    pub control_team: Team,
}

/// The bottom bar at start-up: all overlays off, blue robot "0" selected.
pub open spec fn bottom_panel_initial(p: BottomPanel) -> bool {
    &&& !p.trace_on
    &&& !p.vectors_on
    &&& !p.highlight_on
    &&& !p.manual_control_on
    &&& p.control_robot_id@ == "0"@
    &&& p.control_team == Team::Blue
}

impl BottomPanel {
    /// All overlays off, blue robot "0" selected.
    pub fn new() -> (p: Self)
        ensures
            bottom_panel_initial(p),
    {
        BottomPanel {
            trace_on: false,
            vectors_on: false,
            highlight_on: false,
            manual_control_on: false,
            control_robot_id: "0".to_owned(),
            control_team: Team::Blue,
        }
    }
}

/// The ASCII digits of `s`, in order.
pub open spec fn digits_only(s: Seq<char>) -> Seq<char>
    decreases s.len(),
{
    if s.len() == 0 {
        Seq::empty()
    } else if is_digit(s.last()) {
        digits_only(s.drop_last()).push(s.last())
    } else {
        digits_only(s.drop_last())
    }
}

pub open spec fn clamp_robot_id(v: int) -> int {
    if v < 0 { 0 } else if v > MAX_ROBOT_ID { MAX_ROBOT_ID as int } else { v }
}

/// The selector text after the user types `input`: only its digits are kept;
/// when there are none the text stays empty, otherwise it is their value
/// (0 if it does not fit an `i32`) clamped to `0..=12`.
pub open spec fn robot_id_input(input: Seq<char>) -> Seq<char> {
    let f = digits_only(input);
    if f.len() == 0 {
        Seq::empty()
    } else {
        decimal(clamp_robot_id(parsed_i32_or_zero(f)) as nat)
    }
}

/// The id the up arrow selects: one more than the current one, at most 12.
pub open spec fn next_robot_id(current: Seq<char>) -> int {
    let n = parsed_i32_or_zero(current) + 1;
    if n > MAX_ROBOT_ID { MAX_ROBOT_ID as int } else { n }
}

/// The id the down arrow selects: one less than the current one, at least 0.
pub open spec fn previous_robot_id(current: Seq<char>) -> int {
    let n = parsed_i32_or_zero(current) - 1;
    if n < 0 { 0 } else { n }
}

/// The selector stays within robot ids: the arrows never go above 12 or below
/// 0, and keep an id in `0..=12` there; typed text becomes either empty or
/// the decimal text of an id in `0..=12`, which reads back as that id.
pub proof fn lemma_robot_id_in_range(current: Seq<char>, input: Seq<char>)
    ensures
        next_robot_id(current) <= MAX_ROBOT_ID,
        previous_robot_id(current) >= 0,
        0 <= parsed_i32_or_zero(current) <= MAX_ROBOT_ID ==> 0 <= next_robot_id(current)
            <= MAX_ROBOT_ID && 0 <= previous_robot_id(current) <= MAX_ROBOT_ID,
        robot_id_input(input).len() == 0 || (0 <= parsed_i32_or_zero(robot_id_input(input))
            <= MAX_ROBOT_ID && robot_id_input(input) == decimal(
            parsed_i32_or_zero(robot_id_input(input)) as nat,
        )),
{
    let f = digits_only(input);
    if f.len() > 0 {
        let c = clamp_robot_id(parsed_i32_or_zero(f));
        lemma_signed_decimal_parses(c);
        assert(signed_decimal(c) == decimal(c as nat));
    }
}

fn parse_or_zero(s: &str) -> (v: i32)
    ensures
        v == parsed_i32_or_zero(s@),
{
    match parse_i32(s) {
        Some(v) => v,
        None => 0,
    }
}

fn digit_string(c: char) -> (s: String)
    requires
        is_digit(c),
    ensures
        s@ == seq![c],
{
    let d = (c as u32 - '0' as u32) as u64;
    let s = u64_to_decimal(d);
    assert(digit_char(d as nat) == c);
    s
}

/// The digits of `s`.
fn keep_digits(s: &str) -> (r: String)
    ensures
        r@ == digits_only(s@),
{
    let len = s.unicode_len();
    let mut r = String::new();
    let mut i: usize = 0;
    while i < len
        invariant
            i <= len,
            len == s@.len(),
            r@ == digits_only(s@.take(i as int)),
        decreases len - i,
    {
        let c = s.get_char(i);
        assert(s@.take(i + 1).drop_last() =~= s@.take(i as int));
        if '0' <= c && c <= '9' {
            let d = digit_string(c);
            r.append(d.as_str());
        }
        i += 1;
    }
    assert(s@.take(len as int) =~= s@);
    r
}

/// The selector text after the user types `input`.
pub fn sanitize_robot_id(input: &str) -> (r: String)
    ensures
        r@ == robot_id_input(input@),
{
    let filtered = keep_digits(input);
    if filtered.as_str().unicode_len() == 0 {
        filtered
    } else {
        let v = parse_or_zero(filtered.as_str());
        let clamped = if v < 0 { 0 } else if v > MAX_ROBOT_ID { MAX_ROBOT_ID } else { v };
        u64_to_decimal(clamped as u64)
    }
}

/// The id the up arrow selects.
pub fn increment_robot_id(current: &str) -> (id: i32)
    requires
        parsed_i32_or_zero(current@) < i32::MAX,
    ensures
        id == next_robot_id(current@),
{
    let n = parse_or_zero(current) + 1;
    if n > MAX_ROBOT_ID { MAX_ROBOT_ID } else { n }
}

/// The id the down arrow selects.
pub fn decrement_robot_id(current: &str) -> (id: i32)
    requires
        parsed_i32_or_zero(current@) > i32::MIN,
    ensures
        id == previous_robot_id(current@),
{
    let n = parse_or_zero(current) - 1;
    if n < 0 { 0 } else { n }
}

} // verus!
