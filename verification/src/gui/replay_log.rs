//! Reading a recorded frame log back as replay frames.
//!
//! A frame log is CSV text: a header line, then one line per robot and frame,
//! `ElapsedTime,RobotID,Team,Vx_Command,Vy_Command,Angular_Command,Pos_X,Pos_Y,Orientation,Vx_Actual,Vy_Actual`.
//! Lines that place the ball carry robot id and team `-1`. The library splits
//! the text into records, reads the ids, and groups the rows into frames by
//! time; the caller reads the fractional fields and keeps them by row index.
use crate::text::{
    lemma_split_on_nonempty, parse_i32, parse_int_spec, split_on, split_str, trim, trimmed, views,
};
use vstd::prelude::*;
use vstd::string::*;

verus! {

/// Fields a data line must have at least.
pub const REPLAY_COLUMNS: usize = 11;

/// The fields of one line of the log: `None` for a line that is blank or has
/// fewer than eleven comma-separated fields; otherwise the fields, trimmed.
pub open spec fn line_record(line: Seq<char>) -> Option<Seq<Seq<char>>> {
    let l = trimmed(line);
    if l.len() == 0 {
        None
    } else {
        let cols = split_on(l, ',');
        if cols.len() < REPLAY_COLUMNS {
            None
        } else {
            Some(cols.map_values(|c: Seq<char>| trimmed(c)))
        }
    }
}

/// The records of `lines`, in order, skipping the lines that have none.
pub open spec fn records_of(lines: Seq<Seq<char>>) -> Seq<Seq<Seq<char>>>
    decreases lines.len(),
{
    if lines.len() == 0 {
        Seq::empty()
    } else {
        let r = records_of(lines.drop_last());
        match line_record(lines.last()) {
            Some(c) => r.push(c),
            None => r,
        }
    }
}

/// The records of a log: those of its lines after the header line.
pub open spec fn log_records(content: Seq<char>) -> Seq<Seq<Seq<char>>> {
    records_of(split_on(content, '\n').drop_first())
}

pub open spec fn record_views(v: Seq<Vec<String>>) -> Seq<Seq<Seq<char>>> {
    v.map_values(|r: Vec<String>| views(r@))
}

/// The fields of one line, as [`line_record`] states.
fn line_fields(line: &str) -> (r: Option<Vec<String>>)
    ensures
        match r {
            Some(v) => line_record(line@) == Some(views(v@)),
            None => line_record(line@) is None,
        },
{
    let l = trim(line);
    if l.unicode_len() == 0 {
        return None;
    }
    let cols = split_str(l, ',');
    let ghost cv = views(cols@);
    assert(cv.len() == cols@.len());
    if cols.len() < REPLAY_COLUMNS {
        return None;
    }
    let mut out: Vec<String> = Vec::new();
    let mut i: usize = 0;
    while i < cols.len()
        invariant
            i <= cols@.len(),
            cv == views(cols@),
            cv.len() == cols@.len(),
            views(out@) == cv.take(i as int).map_values(|c: Seq<char>| trimmed(c)),
        decreases cols@.len() - i,
    {
        let f = trim(cols[i].as_str()).to_owned();
        let ghost before = views(out@);
        out.push(f);
        assert(cv[i as int] == cols@[i as int]@);
        assert(views(out@) =~= before.push(trimmed(cv[i as int])));
        assert(cv.take(i + 1).map_values(|c: Seq<char>| trimmed(c)) =~= cv.take(i as int).map_values(
            |c: Seq<char>| trimmed(c),
        ).push(trimmed(cv[i as int])));
        i += 1;
    }
    assert(cv.take(cv.len() as int) =~= cv);
    Some(out)
}

/// Splits a frame log into its records: the lines after the header, trimmed,
/// that are not blank and have at least eleven comma-separated fields, each
/// field trimmed.
pub fn log_records_of(content: &str) -> (records: Vec<Vec<String>>)
    ensures
        record_views(records@) == log_records(content@),
{
    let lines = split_str(content, '\n');
    let ghost lv = views(lines@);
    proof {
        lemma_split_on_nonempty(content@, '\n');
    }
    assert(lv.len() == lines@.len());
    let mut records: Vec<Vec<String>> = Vec::new();
    let mut i: usize = 1;
    assert(lv.subrange(1, 1) =~= Seq::<Seq<char>>::empty());
    assert(record_views(records@) =~= Seq::<Seq<Seq<char>>>::empty());
    while i < lines.len()
        invariant
            1 <= i <= lines@.len(),
            lv == views(lines@),
            lv == split_on(content@, '\n'),
            lv.len() == lines@.len(),
            record_views(records@) == records_of(lv.subrange(1, i as int)),
        decreases lines@.len() - i,
    {
        let ghost before = record_views(records@);
        assert(lv.subrange(1, i + 1).drop_last() =~= lv.subrange(1, i as int));
        assert(lv.subrange(1, i + 1).last() == lines@[i as int]@);
        match line_fields(lines[i].as_str()) {
            Some(f) => {
                records.push(f);
                assert(record_views(records@) =~= before.push(views(f@)));
            },
            None => {},
        }
        i += 1;
    }
    assert(lv.subrange(1, lv.len() as int) =~= lv.drop_first());
    records
}

/// The robot id and team of a record (its second and third fields), when
/// both read as `i32`.
pub open spec fn record_ids(fields: Seq<Seq<char>>) -> Option<(i32, i32)> {
    match (
        parse_int_spec(fields[1], i32::MIN as int, i32::MAX as int, true),
        parse_int_spec(fields[2], i32::MIN as int, i32::MAX as int, true),
    ) {
        (Some(id), Some(team)) => Some((id as i32, team as i32)),
        _ => None,
    }
}

/// Reads the robot id and team of a record.
pub fn record_ids_of(fields: &Vec<String>) -> (r: Option<(i32, i32)>)
    requires
        fields@.len() >= 3,
    ensures
        r == record_ids(views(fields@)),
{
    let id = parse_i32(fields[1].as_str());
    let team = parse_i32(fields[2].as_str());
    match (id, team) {
        (Some(i), Some(t)) => Some((i, t)),
        _ => None,
    }
}

/// A data row of the log once its fields are read: when it was recorded (in
/// milliseconds), the robot id and the team (both -1 on the ball's rows).
#[derive(Clone, Copy, Debug, PartialEq, Eq, Structural)]
pub struct ReplayRow {
    pub elapsed_ms: u64,
    pub robot_id: i32,
    pub team: i32,
}

/// One replay frame: its time, the row that places the ball (the field's
/// centre when there is none), and the robots of each team as `(id, row)`
/// pairs by increasing id. Rows are indices into the rows the frames were
/// built from.
pub struct FrameLayout {
    pub elapsed_ms: u64,
    pub ball: Option<usize>,
    pub blue: Vec<(u32, usize)>,
    pub yellow: Vec<(u32, usize)>,
}

pub open spec fn is_ball_row(r: ReplayRow) -> bool {
    r.robot_id == -1 && r.team == -1
}

/// The last of the first `n` rows that places the ball at time `t`.
pub open spec fn last_ball(rows: Seq<ReplayRow>, t: u64, n: int) -> Option<int>
    decreases n,
{
    if n <= 0 {
        None
    } else if rows[n - 1].elapsed_ms == t && is_ball_row(rows[n - 1]) {
        Some(n - 1)
    } else {
        last_ball(rows, t, n - 1)
    }
}

/// The robots of `team` at time `t` among the first `n` rows: each id that
/// appears (ids below zero do not count), mapped to the last row for it.
pub open spec fn team_robots(rows: Seq<ReplayRow>, t: u64, team: i32, n: int) -> Map<u32, int>
    decreases n,
{
    if n <= 0 {
        Map::empty()
    } else {
        let m = team_robots(rows, t, team, n - 1);
        let r = rows[n - 1];
        if r.elapsed_ms == t && r.team == team && r.robot_id >= 0 {
            m.insert(r.robot_id as u32, n - 1)
        } else {
            m
        }
    }
}

/// Some row was recorded at time `t`.
pub open spec fn has_time(rows: Seq<ReplayRow>, t: u64) -> bool {
    exists|k: int| 0 <= k < rows.len() && #[trigger] rows[k].elapsed_ms == t
}

/// `v` lists the entries of `m` by strictly increasing id.
pub open spec fn lists_map(v: Seq<(u32, usize)>, m: Map<u32, int>) -> bool {
    &&& forall|i: int, j: int| 0 <= i < j < v.len() ==> v[i].0 < v[j].0
    &&& forall|i: int|
        0 <= i < v.len() ==> #[trigger] m.contains_key(v[i].0) && m[v[i].0] == v[i].1
    &&& forall|id: u32| #[trigger]
        m.contains_key(id) ==> exists|i: int| 0 <= i < v.len() && v[i].0 == id
}

pub open spec fn ball_index(b: Option<usize>) -> Option<int> {
    match b {
        Some(k) => Some(k as int),
        None => None,
    }
}

/// `f` is the frame that `rows` give for time `f.elapsed_ms`.
pub open spec fn frame_of(rows: Seq<ReplayRow>, f: FrameLayout) -> bool {
    &&& ball_index(f.ball) == last_ball(rows, f.elapsed_ms, rows.len() as int)
    &&& lists_map(f.blue@, team_robots(rows, f.elapsed_ms, 0, rows.len() as int))
    &&& lists_map(f.yellow@, team_robots(rows, f.elapsed_ms, 1, rows.len() as int))
}

pub open spec fn strictly_sorted(v: Seq<u64>) -> bool {
    forall|i: int, j: int| 0 <= i < j < v.len() ==> v[i] < v[j]
}

/// Records row `k` for robot `id` in the sorted list `v`.
fn upsert(v: &mut Vec<(u32, usize)>, id: u32, k: usize, Ghost(m): Ghost<Map<u32, int>>)
    requires
        lists_map(old(v)@, m),
    ensures
        lists_map(final(v)@, m.insert(id, k as int)),
{
    let ghost o = v@;
    let mut p: usize = 0;
    while p < v.len() && v[p].0 < id
        invariant
            p <= v@.len(),
            v@ == o,
            forall|q: int| 0 <= q < p ==> #[trigger] o[q].0 < id,
        decreases v@.len() - p,
    {
        p += 1;
    }
    let m2 = Ghost(m.insert(id, k as int));
    if p < v.len() && v[p].0 == id {
        v.set(p, (id, k));
        assert forall|i: int| 0 <= i < v@.len() implies #[trigger] m2@.contains_key(v@[i].0)
            && m2@[v@[i].0] == v@[i].1 by {
            if i != p {
                assert(o[i] == v@[i]);
                assert(m.contains_key(o[i].0));
                assert(o[i].0 != id) by {
                    if i < p {
                        assert(o[i].0 < o[p as int].0);
                    } else {
                        assert(o[p as int].0 < o[i].0);
                    }
                }
            }
        }
        assert forall|x: u32| #[trigger] m2@.contains_key(x) implies exists|i: int|
            0 <= i < v@.len() && v@[i].0 == x by {
            if x == id {
                assert(v@[p as int].0 == x);
            } else {
                assert(m.contains_key(x));
                let i = choose|i: int| 0 <= i < o.len() && o[i].0 == x;
                assert(v@[i].0 == x);
            }
        }
    } else {
        assert forall|q: int| p <= q < o.len() implies id < #[trigger] o[q].0 by {
            assert(o[p as int].0 > id);
            if q > p {
                assert(o[p as int].0 < o[q].0);
            }
        }
        v.insert(p, (id, k));
        assert(v@ == o.insert(p as int, (id, k)));
        assert forall|i: int, j: int| 0 <= i < j < v@.len() implies v@[i].0 < v@[j].0 by {
            if j < p {
                assert(v@[i] == o[i] && v@[j] == o[j]);
            } else if j == p {
                assert(v@[i] == o[i]);
            } else if i < p {
                assert(v@[i] == o[i] && v@[j] == o[j - 1]);
            } else if i == p {
                assert(v@[j] == o[j - 1]);
            } else {
                assert(v@[i] == o[i - 1] && v@[j] == o[j - 1]);
            }
        }
        assert forall|i: int| 0 <= i < v@.len() implies #[trigger] m2@.contains_key(v@[i].0)
            && m2@[v@[i].0] == v@[i].1 by {
            if i < p {
                assert(v@[i] == o[i]);
                assert(m.contains_key(o[i].0));
            } else if i > p {
                assert(v@[i] == o[i - 1]);
                assert(m.contains_key(o[i - 1].0));
            }
        }
        assert forall|x: u32| #[trigger] m2@.contains_key(x) implies exists|i: int|
            0 <= i < v@.len() && v@[i].0 == x by {
            if x == id {
                assert(v@[p as int].0 == x);
            } else {
                assert(m.contains_key(x));
                let i = choose|i: int| 0 <= i < o.len() && o[i].0 == x;
                if i < p {
                    assert(v@[i].0 == x);
                } else {
                    assert(v@[i + 1].0 == x);
                }
            }
        }
    }
}

/// Adds `t` to the sorted list of distinct times `v`.
fn insert_time(v: &mut Vec<u64>, t: u64)
    requires
        strictly_sorted(old(v)@),
    ensures
        strictly_sorted(final(v)@),
        forall|x: u64| #[trigger] final(v)@.contains(x) <==> (old(v)@.contains(x) || x == t),
{
    let ghost o = v@;
    let mut p: usize = 0;
    while p < v.len() && v[p] < t
        invariant
            p <= v@.len(),
            v@ == o,
            forall|q: int| 0 <= q < p ==> #[trigger] o[q] < t,
        decreases v@.len() - p,
    {
        p += 1;
    }
    if p < v.len() && v[p] == t {
        return;
    }
    assert forall|q: int| p <= q < o.len() implies t < #[trigger] o[q] by {
        assert(o[p as int] > t);
        if q > p {
            assert(o[p as int] < o[q]);
        }
    }
    v.insert(p, t);
    assert(v@ == o.insert(p as int, t));
    assert forall|i: int, j: int| 0 <= i < j < v@.len() implies v@[i] < v@[j] by {
        if j < p {
            assert(v@[i] == o[i] && v@[j] == o[j]);
        } else if j == p {
            assert(v@[i] == o[i]);
        } else if i < p {
            assert(v@[i] == o[i] && v@[j] == o[j - 1]);
        } else if i == p {
            assert(v@[j] == o[j - 1]);
        } else {
            assert(v@[i] == o[i - 1] && v@[j] == o[j - 1]);
        }
    }
    assert forall|x: u64| #[trigger] v@.contains(x) <==> (o.contains(x) || x == t) by {
        if o.contains(x) {
            let i = choose|i: int| 0 <= i < o.len() && o[i] == x;
            if i < p {
                assert(v@[i] == x);
            } else {
                assert(v@[i + 1] == x);
            }
        }
        if x == t {
            assert(v@[p as int] == x);
        }
        if v@.contains(x) && x != t {
            let i = choose|i: int| 0 <= i < v@.len() && v@[i] == x;
            if i < p {
                assert(o[i] == x);
            } else {
                assert(i != p);
                assert(o[i - 1] == x);
            }
        }
    }
}

/// The distinct times of `rows`, in increasing order.
fn distinct_times(rows: &Vec<ReplayRow>) -> (ts: Vec<u64>)
    ensures
        strictly_sorted(ts@),
        forall|t: u64| #[trigger] ts@.contains(t) <==> has_time(rows@, t),
{
    let mut ts: Vec<u64> = Vec::new();
    let mut i: usize = 0;
    while i < rows.len()
        invariant
            i <= rows@.len(),
            strictly_sorted(ts@),
            forall|t: u64| #[trigger]
                ts@.contains(t) <==> exists|k: int| 0 <= k < i && #[trigger] rows@[k].elapsed_ms == t,
        decreases rows@.len() - i,
    {
        let t = rows[i].elapsed_ms;
        insert_time(&mut ts, t);
        assert forall|x: u64| #[trigger]
            ts@.contains(x) <==> exists|k: int| 0 <= k < i + 1 && #[trigger] rows@[k].elapsed_ms == x by {
            if x == t {
                assert(rows@[i as int].elapsed_ms == x);
            }
        }
        i += 1;
    }
    ts
}

/// The frame that `rows` give for time `t`.
fn frame_at(rows: &Vec<ReplayRow>, t: u64) -> (f: FrameLayout)
    ensures
        f.elapsed_ms == t,
        frame_of(rows@, f),
{
    let mut ball: Option<usize> = None;
    let mut blue: Vec<(u32, usize)> = Vec::new();
    let mut yellow: Vec<(u32, usize)> = Vec::new();
    let mut k: usize = 0;
    while k < rows.len()
        invariant
            k <= rows@.len(),
            ball_index(ball) == last_ball(rows@, t, k as int),
            lists_map(blue@, team_robots(rows@, t, 0, k as int)),
            lists_map(yellow@, team_robots(rows@, t, 1, k as int)),
        decreases rows@.len() - k,
    {
        let r = rows[k];
        if r.elapsed_ms == t {
            if r.robot_id == -1 && r.team == -1 {
                ball = Some(k);
            } else if r.robot_id >= 0 {
                if r.team == 0 {
                    upsert(&mut blue, r.robot_id as u32, k, Ghost(team_robots(rows@, t, 0, k as int)));
                } else if r.team == 1 {
                    upsert(
                        &mut yellow,
                        r.robot_id as u32,
                        k,
                        Ghost(team_robots(rows@, t, 1, k as int)),
                    );
                }
            }
        }
        k += 1;
    }
    FrameLayout { elapsed_ms: t, ball, blue, yellow }
}

/// Groups the rows of a frame log into frames, one per distinct time, in
/// increasing time. In each frame the ball is placed by the last ball row at
/// that time, and each robot of team 0 (blue) or 1 (yellow) with an id of
/// zero or more is given by the last row for it; the robots come by
/// increasing id. Rows of other teams, and robot rows with a negative id,
/// place nothing, though their time still makes a frame.
pub fn build_frames(rows: &Vec<ReplayRow>) -> (frames: Vec<FrameLayout>)
    ensures
        forall|i: int, j: int|
            0 <= i < j < frames@.len() ==> frames@[i].elapsed_ms < frames@[j].elapsed_ms,
        forall|t: u64|
            has_time(rows@, t) <==> exists|i: int|
                0 <= i < frames@.len() && #[trigger] frames@[i].elapsed_ms == t,
        forall|i: int| 0 <= i < frames@.len() ==> frame_of(rows@, #[trigger] frames@[i]),
{
    let ts = distinct_times(rows);
    let mut frames: Vec<FrameLayout> = Vec::new();
    let mut i: usize = 0;
    while i < ts.len()
        invariant
            i <= ts@.len(),
            strictly_sorted(ts@),
            forall|t: u64| #[trigger] ts@.contains(t) <==> has_time(rows@, t),
            frames@.len() == i,
            forall|q: int| 0 <= q < i ==> #[trigger] frames@[q].elapsed_ms == ts@[q],
            forall|q: int| 0 <= q < i ==> frame_of(rows@, #[trigger] frames@[q]),
        decreases ts@.len() - i,
    {
        let f = frame_at(rows, ts[i]);
        frames.push(f);
        i += 1;
    }
    assert forall|t: u64| has_time(rows@, t) implies exists|i: int|
        0 <= i < frames@.len() && #[trigger] frames@[i].elapsed_ms == t by {
        assert(ts@.contains(t));
        let q = choose|q: int| 0 <= q < ts@.len() && ts@[q] == t;
        assert(frames@[q].elapsed_ms == t);
    }
    assert forall|t: u64| (exists|i: int| 0 <= i < frames@.len() && #[trigger] frames@[i].elapsed_ms == t)
        implies has_time(rows@, t) by {
        let q = choose|q: int| 0 <= q < frames@.len() && #[trigger] frames@[q].elapsed_ms == t;
        assert(ts@[q] == t);
        assert(ts@.contains(t));
    }
    frames
}

} // verus!
