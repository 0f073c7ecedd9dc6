//! Bookkeeping of the background log writer: the file of each log, and the
//! rows that wait until their tick is complete.
//!
//! Rows arrive tagged with the tick (milliseconds since the session began)
//! at which they were logged, from the main logger or from secondary ones.
//! A tick is complete once a row of a later tick arrives; complete ticks are
//! handed out in increasing order, to be merged and written by the caller.
use vstd::prelude::*;
use vstd::string::*;

verus! {

/// A tick's rows as seen by the contracts: the tick, its main rows and its
/// secondary rows, in arrival order.
pub open spec fn tick_view<R>(e: (i64, Vec<R>, Vec<R>)) -> (i64, Seq<R>, Seq<R>) {
    (e.0, e.1@, e.2@)
}

pub open spec fn ticks_view<R>(v: Seq<(i64, Vec<R>, Vec<R>)>) -> Seq<(i64, Seq<R>, Seq<R>)> {
    v.map_values(|e: (i64, Vec<R>, Vec<R>)| tick_view(e))
}

/// Ticks strictly increase along `s`.
pub open spec fn ticks_sorted<R>(s: Seq<(i64, Seq<R>, Seq<R>)>) -> bool {
    forall|i: int, j: int| 0 <= i < j < s.len() ==> s[i].0 < s[j].0
}

/// The entry for a tick that has only `row`.
pub open spec fn fresh_tick<R>(tick: i64, is_main: bool, row: R) -> (i64, Seq<R>, Seq<R>) {
    if is_main {
        (tick, seq![row], Seq::empty())
    } else {
        (tick, Seq::empty(), seq![row])
    }
}

/// `e` with `row` appended to its main or secondary rows.
pub open spec fn add_to_tick<R>(e: (i64, Seq<R>, Seq<R>), is_main: bool, row: R) -> (i64, Seq<R>, Seq<R>) {
    if is_main {
        (e.0, e.1.push(row), e.2)
    } else {
        (e.0, e.1, e.2.push(row))
    }
}

/// The pending ticks `s` (sorted) after `row` arrives for `tick`: added to
/// that tick's rows, or as a new tick in its place.
pub open spec fn with_row<R>(s: Seq<(i64, Seq<R>, Seq<R>)>, tick: i64, is_main: bool, row: R) -> Seq<
    (i64, Seq<R>, Seq<R>),
>
    decreases s.len(),
{
    if s.len() == 0 {
        seq![fresh_tick(tick, is_main, row)]
    } else if s[0].0 == tick {
        s.update(0, add_to_tick(s[0], is_main, row))
    } else if s[0].0 > tick {
        seq![fresh_tick(tick, is_main, row)] + s
    } else {
        seq![s[0]] + with_row(s.drop_first(), tick, is_main, row)
    }
}

/// How many leading entries of `s` have a tick before `tick`.
pub open spec fn count_before<R>(s: Seq<(i64, Seq<R>, Seq<R>)>, tick: i64) -> nat
    decreases s.len(),
{
    if s.len() == 0 || s[0].0 >= tick {
        0
    } else {
        1 + count_before(s.drop_first(), tick)
    }
}

proof fn lemma_count_before_bound<R>(s: Seq<(i64, Seq<R>, Seq<R>)>, tick: i64)
    ensures
        count_before(s, tick) <= s.len(),
        forall|i: int| 0 <= i < count_before(s, tick) ==> s[i].0 < tick,
        ticks_sorted(s) ==> forall|i: int|
            count_before(s, tick) <= i < s.len() ==> s[i].0 >= tick,
    decreases s.len(),
{
    if s.len() > 0 && s[0].0 < tick {
        let t = s.drop_first();
        lemma_count_before_bound(t, tick);
        assert forall|i: int| 0 <= i < count_before(s, tick) implies s[i].0 < tick by {
            if i > 0 {
                assert(s[i] == t[i - 1]);
            }
        }
        if ticks_sorted(s) {
            assert(ticks_sorted(t)) by {
                assert forall|i: int, j: int| 0 <= i < j < t.len() implies t[i].0 < t[j].0 by {
                    assert(t[i] == s[i + 1] && t[j] == s[j + 1]);
                }
            }
            assert forall|i: int| count_before(s, tick) <= i < s.len() implies s[i].0 >= tick by {
                assert(s[i] == t[i - 1]);
            }
        }
    } else if s.len() > 0 && ticks_sorted(s) {
        assert forall|i: int| 0 <= i < s.len() implies s[i].0 >= tick by {
            if i > 0 {
                assert(s[0].0 < s[i].0);
            }
        }
    }
}

/// Adding a row leaves the ticks before it in front, and the ticks stay sorted.
proof fn lemma_with_row<R>(s: Seq<(i64, Seq<R>, Seq<R>)>, tick: i64, is_main: bool, row: R)
    requires
        ticks_sorted(s),
    ensures
        ({
            let c = count_before(s, tick) as int;
            let w = with_row(s, tick, is_main, row);
            &&& ticks_sorted(w)
            &&& count_before(w, tick) == c
            &&& w.take(c) == s.take(c)
            &&& w.skip(c) == with_row(s.skip(c), tick, is_main, row)
            &&& w.len() > c
            &&& w[c].0 == tick
            &&& forall|i: int| c < i < w.len() ==> w[i].0 > tick
        }),
    decreases s.len(),
{
    let w = with_row(s, tick, is_main, row);
    let c = count_before(s, tick) as int;
    lemma_count_before_bound(s, tick);
    if s.len() == 0 {
        assert(s.skip(0) =~= s);
        assert(w.take(0) =~= s.take(0));
    } else if s[0].0 == tick {
        assert(s.skip(0) =~= s);
        assert(w.skip(0) =~= w);
        assert(w.take(0) =~= s.take(0));
        assert forall|i: int, j: int| 0 <= i < j < w.len() implies w[i].0 < w[j].0 by {
            assert(w[i].0 == s[i].0 && w[j].0 == s[j].0);
        }
        assert forall|i: int| 0 < i < w.len() implies w[i].0 > tick by {
            assert(s[0].0 < s[i].0);
        }
    } else if s[0].0 > tick {
        assert(s.skip(0) =~= s);
        assert(w.skip(0) =~= w);
        assert(w.take(0) =~= s.take(0));
        assert forall|i: int, j: int| 0 <= i < j < w.len() implies w[i].0 < w[j].0 by {
            if i > 0 {
                assert(w[i] == s[i - 1] && w[j] == s[j - 1]);
            } else {
                assert(w[j] == s[j - 1]);
                if j > 1 {
                    assert(s[0].0 < s[j - 1].0);
                }
            }
        }
        assert forall|i: int| 0 < i < w.len() implies w[i].0 > tick by {
            assert(w[i] == s[i - 1]);
            if i > 1 {
                assert(s[0].0 < s[i - 1].0);
            }
        }
    } else {
        let t = s.drop_first();
        assert(ticks_sorted(t)) by {
            assert forall|i: int, j: int| 0 <= i < j < t.len() implies t[i].0 < t[j].0 by {
                assert(t[i] == s[i + 1] && t[j] == s[j + 1]);
            }
        }
        lemma_with_row(t, tick, is_main, row);
        lemma_count_before_bound(t, tick);
        let wt = with_row(t, tick, is_main, row);
        assert(w == seq![s[0]] + wt);
        assert(w.drop_first() =~= wt);
        assert(w.take(c) =~= seq![s[0]] + wt.take(c - 1));
        assert(s.take(c) =~= seq![s[0]] + t.take(c - 1));
        assert(w.skip(c) =~= wt.skip(c - 1));
        assert(s.skip(c) =~= t.skip(c - 1));
        assert forall|i: int, j: int| 0 <= i < j < w.len() implies w[i].0 < w[j].0 by {
            if i > 0 {
                assert(w[i] == wt[i - 1] && w[j] == wt[j - 1]);
            } else {
                assert(w[j] == wt[j - 1]);
                let cc = count_before(t, tick) as int;
                if j - 1 < cc {
                    assert(wt[j - 1] == t[j - 1]) by {
                        assert(wt.take(cc)[j - 1] == t.take(cc)[j - 1]);
                    }
                    assert(s[0].0 < s[j].0);
                } else {
                    assert(wt[j - 1].0 >= tick);
                }
            }
        }
        assert forall|i: int| c < i < w.len() implies w[i].0 > tick by {
            assert(w[i] == wt[i - 1]);
        }
    }
}

/// The ticks handed out and the ticks still pending after `events` (each a
/// tick, whether the row comes from the main logger, and the row) were added
/// one after the other to an empty [`PendingTicks`], as `add` states.
pub open spec fn session<R>(events: Seq<(i64, bool, R)>) -> (
    Seq<(i64, Seq<R>, Seq<R>)>,
    Seq<(i64, Seq<R>, Seq<R>)>,
)
    decreases events.len(),
{
    if events.len() == 0 {
        (Seq::empty(), Seq::empty())
    } else {
        let (handed, pending) = session(events.drop_last());
        let e = events.last();
        let w = with_row(pending, e.0, e.1, e.2);
        let c = count_before(w, e.0) as int;
        (handed + w.take(c), w.skip(c))
    }
}

/// The rows of `events` grouped by tick: each tick once, in increasing order
/// of first arrival, with its main rows and its secondary rows in arrival
/// order.
pub open spec fn grouped<R>(events: Seq<(i64, bool, R)>) -> Seq<(i64, Seq<R>, Seq<R>)>
    decreases events.len(),
{
    if events.len() == 0 {
        Seq::empty()
    } else {
        let e = events.last();
        with_row(grouped(events.drop_last()), e.0, e.1, e.2)
    }
}

/// Ticks never go back along `events`.
pub open spec fn ticks_nondecreasing<R>(events: Seq<(i64, bool, R)>) -> bool {
    forall|i: int, j: int| 0 <= i < j < events.len() ==> events[i].0 <= events[j].0
}

/// Over a logging session whose ticks never go back, the ticks are handed
/// out in increasing order, each once, with all of their rows: what was
/// handed out, followed by what is still pending (handed out when the
/// session stops), is the rows grouped by tick; and at most the current tick
/// is pending.
pub proof fn lemma_session_in_tick_order<R>(events: Seq<(i64, bool, R)>)
    requires
        ticks_nondecreasing(events),
    ensures
        session(events).0 + session(events).1 == grouped(events),
        ticks_sorted(grouped(events)),
        session(events).1.len() <= 1,
        events.len() > 0 ==> session(events).1.len() == 1 && session(events).1[0].0
            == events.last().0,
    decreases events.len(),
{
    if events.len() > 0 {
        let prev = events.drop_last();
        assert(ticks_nondecreasing(prev)) by {
            assert forall|i: int, j: int| 0 <= i < j < prev.len() implies prev[i].0 <= prev[j].0 by {
                assert(prev[i] == events[i] && prev[j] == events[j]);
            }
        }
        lemma_session_in_tick_order(prev);
        let (h, p) = session(prev);
        let e = events.last();
        let t = e.0;
        let g = grouped(prev);
        let s = h + p;
        assert(s == g);
        lemma_with_row(g, t, e.1, e.2);
        lemma_count_before_bound(g, t);
        lemma_with_row(p, t, e.1, e.2);
        lemma_count_before_bound(p, t);
        if prev.len() > 0 {
            assert(prev.last() == events[events.len() - 2]);
            assert(p[0].0 <= t);
        }
        // every tick handed out so far is before the pending one, hence before t
        assert forall|k: int| 0 <= k < h.len() implies h[k].0 < t by {
            assert(s[k] == h[k]);
            assert(s[h.len() as int] == p[0]);
            assert(s[k].0 < s[h.len() as int].0);
        }
        let cg = count_before(g, t) as int;
        let cp = count_before(p, t) as int;
        assert(cg == h.len() + cp) by {
            assert forall|k: int| 0 <= k < h.len() + cp implies g[k].0 < t by {
                if k >= h.len() {
                    assert(g[k] == p[k - h.len()]);
                }
            }
            assert forall|k: int| h.len() + cp <= k < g.len() implies g[k].0 >= t by {
                assert(g[k] == p[k - h.len()]);
            }
            lemma_count_before_exact(g, t, h.len() + cp);
        }
        let w = with_row(p, t, e.1, e.2);
        let wg = with_row(g, t, e.1, e.2);
        assert(g.skip(cg) =~= p.skip(cp));
        assert(g.take(cg) =~= h + p.take(cp));
        assert(wg =~= wg.take(cg) + wg.skip(cg));
        assert(w =~= w.take(cp) + w.skip(cp));
        assert(w.take(cp) == p.take(cp));
        assert(wg == h + w) by {
            assert(wg.take(cg) == h + p.take(cp));
            assert(wg.skip(cg) == with_row(p.skip(cp), t, e.1, e.2));
            assert(w.skip(cp) == with_row(p.skip(cp), t, e.1, e.2));
        }
        let (h2, p2) = session(events);
        assert(h2 == h + w.take(cp));
        assert(p2 == w.skip(cp));
        assert(h2 + p2 =~= h + w);
        assert(p2.len() == 1) by {
            assert(w.len() == cp + 1) by {
                if w.len() > cp + 1 {
                    assert(w[cp + 1].0 > t);
                    if prev.len() > 0 {
                        assert(p.len() == 1);
                    } else {
                        assert(p.len() == 0);
                    }
                }
            }
        }
    }
}

/// The count of leading entries before `tick` is `c` when the first `c`
/// entries come before it and the rest do not.
proof fn lemma_count_before_exact<R>(s: Seq<(i64, Seq<R>, Seq<R>)>, tick: i64, c: int)
    requires
        0 <= c <= s.len(),
        forall|k: int| 0 <= k < c ==> s[k].0 < tick,
        forall|k: int| c <= k < s.len() ==> s[k].0 >= tick,
    ensures
        count_before(s, tick) == c,
    decreases s.len(),
{
    if s.len() > 0 && c > 0 {
        let t = s.drop_first();
        assert forall|k: int| 0 <= k < c - 1 implies t[k].0 < tick by {
            assert(t[k] == s[k + 1]);
        }
        assert forall|k: int| c - 1 <= k < t.len() implies t[k].0 >= tick by {
            assert(t[k] == s[k + 1]);
        }
        lemma_count_before_exact(t, tick, c - 1);
    }
}

/// The rows of `events` logged at `tick` by the main logger (`main`) or by
/// secondary ones (`!main`), in arrival order.
pub open spec fn rows_at<R>(events: Seq<(i64, bool, R)>, tick: i64, main: bool) -> Seq<R>
    decreases events.len(),
{
    if events.len() == 0 {
        Seq::empty()
    } else {
        let e = events.last();
        let before = rows_at(events.drop_last(), tick, main);
        if e.0 == tick && e.1 == main {
            before.push(e.2)
        } else {
            before
        }
    }
}

/// Some row of `events` was logged at `tick`.
pub open spec fn logged_at<R>(events: Seq<(i64, bool, R)>, tick: i64) -> bool
    decreases events.len(),
{
    events.len() > 0 && (events.last().0 == tick || logged_at(events.drop_last(), tick))
}

/// The first entry of `s` for tick `u`, if any.
pub open spec fn tick_entry<R>(s: Seq<(i64, Seq<R>, Seq<R>)>, u: i64) -> Option<
    (i64, Seq<R>, Seq<R>),
>
    decreases s.len(),
{
    if s.len() == 0 {
        None
    } else if s[0].0 == u {
        Some(s[0])
    } else {
        tick_entry(s.drop_first(), u)
    }
}

proof fn lemma_sorted_drop_first<R>(s: Seq<(i64, Seq<R>, Seq<R>)>)
    requires
        ticks_sorted(s),
        s.len() > 0,
    ensures
        ticks_sorted(s.drop_first()),
{
    let t = s.drop_first();
    assert forall|i: int, j: int| 0 <= i < j < t.len() implies t[i].0 < t[j].0 by {
        assert(t[i] == s[i + 1] && t[j] == s[j + 1]);
    }
}

proof fn lemma_rows_at_unlogged<R>(events: Seq<(i64, bool, R)>, tick: i64, main: bool)
    requires
        !logged_at(events, tick),
    ensures
        rows_at(events, tick, main) == Seq::<R>::empty(),
    decreases events.len(),
{
    if events.len() > 0 {
        lemma_rows_at_unlogged(events.drop_last(), tick, main);
    }
}

proof fn lemma_logged_at_index<R>(events: Seq<(i64, bool, R)>, i: int)
    requires
        0 <= i < events.len(),
    ensures
        logged_at(events, events[i].0),
    decreases events.len(),
{
    if i < events.len() - 1 {
        let prev = events.drop_last();
        assert(prev[i] == events[i]);
        lemma_logged_at_index(prev, i);
    }
}

/// In sorted ticks, the entry found for a tick is the one at its index.
proof fn lemma_tick_entry_index<R>(s: Seq<(i64, Seq<R>, Seq<R>)>, k: int)
    requires
        ticks_sorted(s),
        0 <= k < s.len(),
    ensures
        tick_entry(s, s[k].0) == Some(s[k]),
    decreases s.len(),
{
    if k > 0 {
        assert(s[0].0 < s[k].0);
        lemma_sorted_drop_first(s);
        assert(s.drop_first()[k - 1] == s[k]);
        lemma_tick_entry_index(s.drop_first(), k - 1);
    }
}

/// An entry found for a tick stands in `s`, under that tick.
proof fn lemma_tick_entry_found<R>(s: Seq<(i64, Seq<R>, Seq<R>)>, u: i64)
    requires
        tick_entry(s, u) is Some,
    ensures
        tick_entry(s, u).unwrap().0 == u,
        exists|k: int| 0 <= k < s.len() && s[k] == tick_entry(s, u).unwrap(),
    decreases s.len(),
{
    if s[0].0 == u {
        assert(s[0] == tick_entry(s, u).unwrap());
    } else {
        let t = s.drop_first();
        lemma_tick_entry_found(t, u);
        let k = choose|k: int| 0 <= k < t.len() && t[k] == tick_entry(t, u).unwrap();
        assert(s[k + 1] == t[k]);
    }
}

proof fn lemma_tick_entry_above<R>(s: Seq<(i64, Seq<R>, Seq<R>)>, u: i64)
    requires
        ticks_sorted(s),
        s.len() > 0 ==> s[0].0 > u,
    ensures
        tick_entry(s, u) == Option::<(i64, Seq<R>, Seq<R>)>::None,
    decreases s.len(),
{
    if s.len() > 1 {
        assert(s[0].0 < s[1].0);
        lemma_sorted_drop_first(s);
        lemma_tick_entry_above(s.drop_first(), u);
    } else if s.len() == 1 {
        lemma_tick_entry_above(s.drop_first(), u);
    }
}

/// What adding a row does to the entry of each tick: the entry of `tick`
/// gets the row, or is made from it; the other entries stay as they were.
proof fn lemma_with_row_entry<R>(s: Seq<(i64, Seq<R>, Seq<R>)>, tick: i64, is_main: bool, row: R, u: i64)
    requires
        ticks_sorted(s),
    ensures
        tick_entry(with_row(s, tick, is_main, row), u) == (if u == tick {
            match tick_entry(s, tick) {
                Some(e) => Some(add_to_tick(e, is_main, row)),
                None => Some(fresh_tick(tick, is_main, row)),
            }
        } else {
            tick_entry(s, u)
        }),
    decreases s.len(),
{
    let w = with_row(s, tick, is_main, row);
    if s.len() == 0 {
        assert(w.drop_first() =~= s);
    } else if s[0].0 == tick {
        assert(w.drop_first() =~= s.drop_first());
    } else if s[0].0 > tick {
        assert(w.drop_first() =~= s);
        lemma_tick_entry_above(s, tick);
    } else {
        let t = s.drop_first();
        lemma_sorted_drop_first(s);
        lemma_with_row_entry(t, tick, is_main, row, u);
        let wt = with_row(t, tick, is_main, row);
        assert(w == seq![s[0]] + wt);
        assert(w.drop_first() =~= wt);
    }
}

/// The rows grouped by tick: the entry of each tick holds exactly the main
/// rows and exactly the secondary rows logged at it, in arrival order, and
/// a tick has an entry just when some row was logged at it.
proof fn lemma_grouped_entry<R>(events: Seq<(i64, bool, R)>, u: i64)
    ensures
        ticks_sorted(grouped(events)),
        tick_entry(grouped(events), u) == (if logged_at(events, u) {
            Some((u, rows_at(events, u, true), rows_at(events, u, false)))
        } else {
            None
        }),
    decreases events.len(),
{
    if events.len() > 0 {
        let prev = events.drop_last();
        let e = events.last();
        let g = grouped(prev);
        lemma_grouped_entry(prev, u);
        lemma_grouped_entry(prev, e.0);
        lemma_with_row(g, e.0, e.1, e.2);
        lemma_with_row_entry(g, e.0, e.1, e.2, u);
        if u == e.0 && !logged_at(prev, u) {
            lemma_rows_at_unlogged(prev, u, true);
            lemma_rows_at_unlogged(prev, u, false);
            assert(Seq::<R>::empty().push(e.2) =~= seq![e.2]);
        }
    }
}

/// Over a logging session whose ticks never go back, each tick handed out
/// (and, once the session stops, the tick still pending) carries exactly the
/// main rows and exactly the secondary rows that were logged at that tick,
/// each in the order in which they arrived; and every tick at which a row
/// was logged is among them.
pub proof fn lemma_ticks_carry_rows_in_arrival_order<R>(events: Seq<(i64, bool, R)>)
    requires
        ticks_nondecreasing(events),
    ensures
        ({
            let out = session(events).0 + session(events).1;
            &&& forall|k: int|
                0 <= k < out.len() ==> (#[trigger] out[k]).1 == rows_at(events, out[k].0, true)
                    && out[k].2 == rows_at(events, out[k].0, false)
            &&& forall|i: int|
                0 <= i < events.len() ==> exists|k: int|
                    0 <= k < out.len() && #[trigger] out[k].0 == (#[trigger] events[i]).0
        }),
{
    lemma_session_in_tick_order(events);
    let out = session(events).0 + session(events).1;
    assert forall|k: int| 0 <= k < out.len() implies (#[trigger] out[k]).1 == rows_at(
        events,
        out[k].0,
        true,
    ) && out[k].2 == rows_at(events, out[k].0, false) by {
        lemma_grouped_entry(events, out[k].0);
        lemma_tick_entry_index(out, k);
    }
    assert forall|i: int| 0 <= i < events.len() implies exists|k: int|
        0 <= k < out.len() && #[trigger] out[k].0 == (#[trigger] events[i]).0 by {
        lemma_logged_at_index(events, i);
        lemma_grouped_entry(events, events[i].0);
        lemma_tick_entry_found(out, events[i].0);
        let k = choose|k: int| 0 <= k < out.len() && out[k] == tick_entry(out, events[i].0).unwrap();
        assert(out[k].0 == events[i].0);
    }
}

/// Rows waiting, by tick, for their tick to complete.
pub struct PendingTicks<R> {
    ticks: Vec<(i64, Vec<R>, Vec<R>)>,
}

impl<R> PendingTicks<R> {
    /// The pending ticks, in increasing order, with their rows.
    pub closed spec fn view_ticks(&self) -> Seq<(i64, Seq<R>, Seq<R>)> {
        ticks_view(self.ticks@)
    }

    /// Pending ticks are kept in strictly increasing order.
    pub closed spec fn wf(&self) -> bool {
        ticks_sorted(self.view_ticks())
    }

    /// Nothing pending.
    pub fn new() -> (p: Self)
        ensures
            p.wf(),
            p.view_ticks().len() == 0,
    {
        PendingTicks { ticks: Vec::new() }
    }

    pub fn len(&self) -> (n: usize)
        ensures
            n == self.view_ticks().len(),
    {
        self.ticks.len()
    }

    /// Files `row`, logged at `tick` by the main logger (`is_main`) or by a
    /// secondary one, and hands out the ticks before `tick`, which are now
    /// complete, in increasing order; the other ticks stay pending.
    pub fn add(&mut self, tick: i64, is_main: bool, row: R) -> (done: Vec<(i64, Vec<R>, Vec<R>)>)
        requires
            old(self).wf(),
        ensures
            ({
                let w = with_row(old(self).view_ticks(), tick, is_main, row);
                let c = count_before(w, tick) as int;
                &&& final(self).wf()
                &&& ticks_view(done@) == w.take(c)
                &&& final(self).view_ticks() == w.skip(c)
            }),
            forall|events: Seq<(i64, bool, R)>|
                #[trigger] session(events).1 == old(self).view_ticks() ==> {
                    let next = events.push((tick, is_main, row));
                    &&& session(next).0 == session(events).0 + ticks_view(done@)
                    &&& session(next).1 == final(self).view_ticks()
                },
    {
        let ghost s = self.view_ticks();
        let ghost c = count_before(s, tick) as int;
        proof {
            lemma_with_row(s, tick, is_main, row);
            lemma_count_before_bound(s, tick);
        }
        let mut rest: Vec<(i64, Vec<R>, Vec<R>)> = Vec::new();
        std::mem::swap(&mut rest, &mut self.ticks);
        let mut done: Vec<(i64, Vec<R>, Vec<R>)> = Vec::new();
        // Complete ticks come first.
        while rest.len() > 0 && rest[0].0 < tick
            invariant
                ticks_view(done@) + ticks_view(rest@) == s,
                done@.len() <= c,
                c == count_before(s, tick),
                c <= s.len(),
                forall|i: int| 0 <= i < c ==> s[i].0 < tick,
                forall|i: int| c <= i < s.len() ==> s[i].0 >= tick,
            decreases rest@.len(),
        {
            let ghost before_done = ticks_view(done@);
            let ghost before_rest = ticks_view(rest@);
            let e = rest.remove(0);
            done.push(e);
            assert(ticks_view(done@) =~= before_done.push(before_rest[0]));
            assert(ticks_view(rest@) =~= before_rest.drop_first());
            assert(ticks_view(done@) + ticks_view(rest@) =~= before_done + before_rest);
            assert(s[before_done.len() as int] == before_rest[0]);
        }
        assert(done@.len() == c) by {
            if done@.len() < c {
                assert(rest@.len() > 0);
                assert(ticks_view(rest@)[0] == s[done@.len() as int]);
            }
        }
        assert(ticks_view(done@) =~= s.take(c));
        assert(ticks_view(rest@) =~= s.skip(c));
        // The row joins its tick, or starts one.
        let ghost r0 = ticks_view(rest@);
        let mut kept: Vec<(i64, Vec<R>, Vec<R>)> = Vec::new();
        if rest.len() > 0 && rest[0].0 == tick {
            let (t, mut mains, mut secs) = rest.remove(0);
            if is_main {
                mains.push(row);
            } else {
                secs.push(row);
            }
            kept.push((t, mains, secs));
        } else {
            let mut mains: Vec<R> = Vec::new();
            let mut secs: Vec<R> = Vec::new();
            if is_main {
                mains.push(row);
            } else {
                secs.push(row);
            }
            kept.push((tick, mains, secs));
            assert(ticks_view(kept@) =~= seq![fresh_tick(tick, is_main, row)]);
        }
        let ghost k0 = ticks_view(kept@);
        kept.append(&mut rest);
        proof {
            let w = with_row(s, tick, is_main, row);
            if r0.len() > 0 && r0[0].0 == tick {
                assert(ticks_view(kept@) =~= k0 + r0.drop_first());
                assert(with_row(r0, tick, is_main, row) =~= k0 + r0.drop_first());
            } else {
                assert(ticks_view(kept@) =~= k0 + r0);
                if r0.len() == 0 {
                    assert(k0 + r0 =~= k0);
                }
            }
            assert(ticks_view(kept@) == w.skip(c));
        }
        self.ticks = kept;
        proof {
            let w = with_row(s, tick, is_main, row);
            assert forall|i: int, j: int|
                0 <= i < j < self.view_ticks().len() implies self.view_ticks()[i].0
                < self.view_ticks()[j].0 by {
                assert(self.view_ticks()[i] == w[i + c] && self.view_ticks()[j] == w[j + c]);
            }
        }
        proof {
            assert forall|events: Seq<(i64, bool, R)>|
                #[trigger] session(events).1 == s implies {
                let next = events.push((tick, is_main, row));
                &&& session(next).0 == session(events).0 + ticks_view(done@)
                &&& session(next).1 == self.view_ticks()
            } by {
                let next = events.push((tick, is_main, row));
                assert(next.drop_last() =~= events);
                assert(next.last() == (tick, is_main, row));
            }
        }
        done
    }

    /// Hands out every pending tick, in increasing order; nothing stays pending.
    pub fn drain(&mut self) -> (done: Vec<(i64, Vec<R>, Vec<R>)>)
        ensures
            ticks_view(done@) == old(self).view_ticks(),
            final(self).wf(),
            final(self).view_ticks().len() == 0,
    {
        let mut done: Vec<(i64, Vec<R>, Vec<R>)> = Vec::new();
        std::mem::swap(&mut done, &mut self.ticks);
        assert(ticks_view(self.ticks@) =~= Seq::<(i64, Seq<R>, Seq<R>)>::empty());
        done
    }
}

/// The file of log `name` in the session directory `dir`, with extension `ext`.
pub fn session_file(dir: &str, name: &str, ext: &str) -> (path: String)
    ensures
        path@ == dir@ + "/"@ + name@ + "."@ + ext@,
{
    let mut path = dir.to_owned();
    path.append("/");
    path.append(name);
    path.append(".");
    path.append(ext);
    path
}

/// The shape of a JSON document.
#[derive(Clone, Copy, Debug, PartialEq, Eq, Structural)]
pub enum JsonKind {
    Null,
    Object,
    Array,
    /// A string, number or boolean.
    Scalar,
}

/// How a new JSON report is merged into the document already on disk.
#[derive(Clone, Copy, Debug, PartialEq, Eq, Structural)]
pub enum JsonMerge {
    /// The new report becomes the document.
    Replace,
    /// The new report's keys are set in the document (replacing equal keys).
    InsertKeys,
    /// The new report is appended to the document.
    Push,
    /// The document becomes an array of the old document and the new report.
    WrapInArray,
}

/// The merge of a report of shape `new` into a document of shape `current`:
/// two objects merge their keys; an array takes the report as its last
/// element; an empty (null) document is replaced; anything else becomes a
/// two-element array.
pub open spec fn merge_plan(current: JsonKind, new: JsonKind) -> JsonMerge {
    if current == JsonKind::Object && new == JsonKind::Object {
        JsonMerge::InsertKeys
    } else if current == JsonKind::Array {
        JsonMerge::Push
    } else if current == JsonKind::Null {
        JsonMerge::Replace
    } else {
        JsonMerge::WrapInArray
    }
}

/// Decides how a report of shape `new` is merged into a document of shape
/// `current`.
pub fn json_merge_plan(current: JsonKind, new: JsonKind) -> (m: JsonMerge)
    ensures
        m == merge_plan(current, new),
{
    match (current, new) {
        (JsonKind::Object, JsonKind::Object) => JsonMerge::InsertKeys,
        (JsonKind::Array, _) => JsonMerge::Push,
        (JsonKind::Null, _) => JsonMerge::Replace,
        _ => JsonMerge::WrapInArray,
    }
}

} // verus!
