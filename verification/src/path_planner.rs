//! Path planning around obstacles: the planner's settings and the shortening
//! of a planned path to the waypoints that cannot be skipped.
//!
//! Geometry (segments, collisions, subgoals) is computed by the caller; the
//! planner decides which waypoints to keep from the answers it gets.
use vstd::prelude::*;

verus! {

/// Depth of subdivision a planner uses when none is given.
pub const DEFAULT_MAX_DEPTH: i32 = 10;

pub struct FastPathPlanner {
    max_depth: i32,
}

impl FastPathPlanner {
    /// How many times a blocked segment may be split around an obstacle.
    pub closed spec fn depth_limit(&self) -> int {
        self.max_depth as int
    }

    /// A planner that splits a blocked segment at most `max_depth` times.
    pub fn new(max_depth: i32) -> (p: Self)
        ensures
            p.depth_limit() == max_depth,
    {
        FastPathPlanner { max_depth }
    }

    pub fn max_depth(&self) -> (d: i32)
        ensures
            d == self.depth_limit(),
    {
        self.max_depth
    }
}

impl Default for FastPathPlanner {
    /// A planner with the default depth of 10.
    fn default() -> (p: Self)
        ensures
            p.depth_limit() == DEFAULT_MAX_DEPTH,
    {
        FastPathPlanner::new(DEFAULT_MAX_DEPTH)
    }
}

/// `kept` is strictly increasing.
pub open spec fn increasing(kept: Seq<usize>) -> bool {
    forall|a: int, b: int| 0 <= a < b < kept.len() ==> kept[a] < kept[b]
}

/// From waypoint `i`, `j` is the farthest waypoint that `clear` reported a
/// free straight segment to, or the next waypoint when none was.
pub open spec fn farthest_clear<F: Fn(usize, usize) -> bool>(
    clear: F,
    n: usize,
    i: usize,
    j: usize,
) -> bool {
    &&& i < j < n
    &&& (j == i + 1 || clear.ensures((i, j), true))
    &&& forall|k: usize| j < k < n ==> #[trigger] clear.ensures((i, k), false)
}

/// The waypoints kept when a path of `n` points is shortened: a path of two
/// points or fewer is kept whole; otherwise, from the first point, each step
/// jumps to the farthest later point with a free straight segment to it (or
/// to the next point when there is none), until the last point.
/// `clear(i, j)` tells whether the straight segment from point `i` to point
/// `j` is free.
pub fn simplify_indices<F: Fn(usize, usize) -> bool>(n: usize, clear: F) -> (kept: Vec<usize>)
    requires
        forall|i: usize, j: usize| i < j < n ==> #[trigger] clear.requires((i, j)),
    ensures
        n <= 2 ==> kept@ == Seq::new(n as nat, |k: int| k as usize),
        n > 2 ==> {
            &&& kept@.len() >= 2
            &&& kept@[0] == 0
            &&& kept@.last() == n - 1
            &&& increasing(kept@)
            &&& forall|q: int|
                0 <= q < kept@.len() - 1 ==> farthest_clear(clear, n, #[trigger] kept@[q], kept@[q + 1])
        },
{
    let mut kept: Vec<usize> = Vec::new();
    if n <= 2 {
        let mut k: usize = 0;
        while k < n
            invariant
                k <= n,
                kept@ == Seq::new(k as nat, |m: int| m as usize),
            decreases n - k,
        {
            kept.push(k);
            k += 1;
            assert(kept@ =~= Seq::new(k as nat, |m: int| m as usize));
        }
        return kept;
    }
    kept.push(0);
    let mut i: usize = 0;
    while i < n - 1
        invariant
            n > 2,
            i < n,
            forall|a: usize, b: usize| a < b < n ==> #[trigger] clear.requires((a, b)),
            kept@.len() >= 1,
            kept@[0] == 0,
            kept@.last() == i,
            increasing(kept@),
            forall|q: int|
                0 <= q < kept@.len() - 1 ==> farthest_clear(clear, n, #[trigger] kept@[q], kept@[q + 1]),
        decreases n - i,
    {
        let mut j: usize = n - 1;
        while j > i + 1
            invariant
                i + 1 <= j <= n - 1,
                i < n - 1,
                forall|a: usize, b: usize| a < b < n ==> #[trigger] clear.requires((a, b)),
                forall|k: usize| j < k < n ==> #[trigger] clear.ensures((i, k), false),
            ensures
                i + 1 <= j <= n - 1,
                j == i + 1 || clear.ensures((i, j), true),
                forall|k: usize| j < k < n ==> #[trigger] clear.ensures((i, k), false),
            decreases j,
        {
            let free = clear(i, j);
            if free {
                break;
            }
            j -= 1;
        }
        assert(farthest_clear(clear, n, i, j));
        let ghost before = kept@;
        kept.push(j);
        assert forall|q: int| 0 <= q < kept@.len() - 1 implies farthest_clear(
            clear,
            n,
            #[trigger] kept@[q],
            kept@[q + 1],
        ) by {
            if q < before.len() - 1 {
                assert(kept@[q] == before[q] && kept@[q + 1] == before[q + 1]);
            } else {
                assert(kept@[q] == i && kept@[q + 1] == j);
            }
        }
        assert forall|a: int, b: int| 0 <= a < b < kept@.len() implies kept@[a] < kept@[b] by {
            if b < before.len() {
                assert(kept@[a] == before[a] && kept@[b] == before[b]);
            } else {
                assert(kept@[a] == before[a]);
                assert(before[a] <= i) by {
                    if a < before.len() - 1 {
                        assert(before[a] < before[before.len() - 1]);
                    }
                }
            }
        }
        i = j;
    }
    kept
}

/// The segments `segs` lead from `start` to `goal`: the first starts at
/// `start`, each ends where the next starts, and the last ends at `goal`.
pub open spec fn chains<P>(segs: Seq<(P, P, i32)>, start: P, goal: P) -> bool {
    &&& segs.len() > 0
    &&& segs[0].0 == start
    &&& segs.last().1 == goal
    &&& forall|k: int| 0 <= k < segs.len() - 1 ==> #[trigger] segs[k].1 == segs[k + 1].0
}

/// How planning went on one segment.
pub enum SplitRun<P> {
    /// Kept as one piece: reported free, or the split limit was reached.
    Piece,
    /// Blocked, and the subgoal search found nothing.
    NoSubgoal,
    /// Blocked and split at the subgoal found: how the first half went, then
    /// how the second half went (not tried when the first half failed).
    Split(P, Box<SplitRun<P>>, Option<Box<SplitRun<P>>>),
}

/// Some subgoal search of the run found nothing.
pub open spec fn run_failed<P>(run: SplitRun<P>) -> bool
    decreases run,
{
    match run {
        SplitRun::Piece => false,
        SplitRun::NoSubgoal => true,
        SplitRun::Split(_, first, second) => run_failed(*first) || match second {
            Some(r) => run_failed(*r),
            None => false,
        },
    }
}

/// `run` is what planning does on the segment from `start` to `goal`,
/// reached after `depth` splits, with the answers `collides` and `subgoal`
/// give: a segment reported blocked is split (when fewer than `limit` splits
/// led to it) at the subgoal found for it, and the halves are planned in
/// turn; any other segment stays one piece.
pub open spec fn run_follows<P, C: Fn(P, P) -> bool, S: Fn(P, P) -> Option<P>>(
    run: SplitRun<P>,
    start: P,
    goal: P,
    depth: int,
    collides: C,
    subgoal: S,
    limit: int,
) -> bool
    decreases run,
{
    match run {
        SplitRun::Piece => collides.ensures((start, goal), false) || depth >= limit,
        SplitRun::NoSubgoal => {
            &&& collides.ensures((start, goal), true)
            &&& depth < limit
            &&& subgoal.ensures((start, goal), None::<P>)
        },
        SplitRun::Split(sub, first, second) => {
            &&& collides.ensures((start, goal), true)
            &&& depth < limit
            &&& subgoal.ensures((start, goal), Some(sub))
            &&& run_follows(*first, start, sub, depth + 1, collides, subgoal, limit)
            &&& match second {
                None => run_failed(*first),
                Some(r) => !run_failed(*first) && run_follows(
                    *r,
                    sub,
                    goal,
                    depth + 1,
                    collides,
                    subgoal,
                    limit,
                ),
            }
        },
    }
}

/// The pieces a run leaves, in order from `start`, each with the number of
/// splits that led to it.
pub open spec fn run_pieces<P>(run: SplitRun<P>, start: P, goal: P, depth: int) -> Seq<(P, P, i32)>
    decreases run,
{
    match run {
        SplitRun::Piece => seq![(start, goal, depth as i32)],
        SplitRun::NoSubgoal => Seq::empty(),
        SplitRun::Split(sub, first, second) => match second {
            Some(r) => run_pieces(*first, start, sub, depth + 1) + run_pieces(*r, sub, goal, depth + 1),
            None => Seq::empty(),
        },
    }
}

/// `path` is what planning one side gives from `start` to `goal`: there is
/// a run that follows the answers of `collides` and `subgoal`, the path is
/// empty exactly when a subgoal search of that run found nothing, and
/// otherwise it holds the run's pieces.
pub open spec fn planned_side<P, C: Fn(P, P) -> bool, S: Fn(P, P) -> Option<P>>(
    path: Seq<(P, P, i32)>,
    start: P,
    goal: P,
    collides: C,
    subgoal: S,
    limit: int,
) -> bool {
    exists|run: SplitRun<P>|
        {
            &&& #[trigger] run_follows(run, start, goal, 0, collides, subgoal, limit)
            &&& (path.len() == 0 <==> run_failed(run))
            &&& !run_failed(run) ==> path == run_pieces(run, start, goal, 0)
        }
}

/// The waypoints of a planned path: the start of each piece and the end of
/// the last one; `start` and `goal` when there is no path.
pub open spec fn path_waypoints<P>(segs: Seq<(P, P, i32)>, start: P, goal: P) -> Seq<P> {
    if segs.len() == 0 {
        seq![start, goal]
    } else {
        Seq::new(
            (segs.len() + 1) as nat,
            |k: int| if k < segs.len() { segs[k].0 } else { segs.last().1 },
        )
    }
}

/// The path of the two sides that is kept: the first when it is not empty and
/// has no more pieces than the second, otherwise the second.
pub open spec fn chosen_side<T>(first: Seq<T>, second: Seq<T>) -> Seq<T> {
    if first.len() <= second.len() && first.len() > 0 {
        first
    } else {
        second
    }
}

/// From waypoint `i` of `w`, `j` is the farthest waypoint that `collides`
/// reported a free straight segment to, or the next one when none was.
pub open spec fn farthest_free<P, C: Fn(P, P) -> bool>(collides: C, w: Seq<P>, i: int, j: int) -> bool {
    &&& 0 <= i < j < w.len()
    &&& (j == i + 1 || collides.ensures((w[i], w[j]), false))
    &&& forall|k: int| j < k < w.len() ==> #[trigger] collides.ensures((w[i], w[k]), true)
}

/// `kept` are the indices of the waypoints of `w` kept when the path is
/// shortened: all of them for two waypoints or fewer; otherwise from the
/// first, each step goes to the farthest waypoint reachable in a free straight
/// segment, up to the last.
pub open spec fn shortened<P, C: Fn(P, P) -> bool>(kept: Seq<usize>, w: Seq<P>, collides: C) -> bool {
    if w.len() <= 2 {
        kept == Seq::new(w.len(), |k: int| k as usize)
    } else {
        &&& kept.len() >= 2
        &&& kept[0] == 0
        &&& kept.last() == w.len() - 1
        &&& increasing(kept)
        &&& forall|q: int|
            0 <= q < kept.len() - 1 ==> farthest_free(
                collides,
                w,
                #[trigger] kept[q] as int,
                kept[q + 1] as int,
            )
    }
}

proof fn lemma_chain_concat<P>(a: Seq<(P, P, i32)>, b: Seq<(P, P, i32)>, start: P, mid: P, goal: P)
    requires
        chains(a, start, mid),
        chains(b, mid, goal),
    ensures
        chains(a + b, start, goal),
{
    let c = a + b;
    assert forall|k: int| 0 <= k < c.len() - 1 implies #[trigger] c[k].1 == c[k + 1].0 by {
        if k < a.len() - 1 {
            assert(c[k] == a[k] && c[k + 1] == a[k + 1]);
        } else if k == a.len() - 1 {
            assert(c[k] == a[k] && c[k + 1] == b[0]);
        } else {
            assert(c[k] == b[k - a.len()] && c[k + 1] == b[k - a.len() + 1]);
        }
    }
}

impl FastPathPlanner {
    /// Plans the segment from `start` to `goal`, reached after `depth`
    /// splits: `None` when a subgoal search failed, otherwise the pieces in
    /// order from `start`; with how the planning went.
    fn split_segment<P: Copy, C: Fn(P, P) -> bool, S: Fn(P, P) -> Option<P>>(
        &self,
        start: P,
        goal: P,
        depth: i32,
        collides: &C,
        subgoal: &S,
    ) -> (r: (Option<Vec<(P, P, i32)>>, Ghost<SplitRun<P>>))
        requires
            0 <= depth,
            forall|a: P, b: P| #[trigger] collides.requires((a, b)),
            forall|a: P, b: P| #[trigger] subgoal.requires((a, b)),
        ensures
            run_follows(r.1@, start, goal, depth as int, *collides, *subgoal, self.depth_limit()),
            r.0 is None <==> run_failed(r.1@),
            r.0 matches Some(v) ==> v@ == run_pieces(r.1@, start, goal, depth as int) && chains(
                v@,
                start,
                goal,
            ),
        decreases self.depth_limit() - depth,
    {
        let blocked = collides(start, goal);
        if blocked && depth < self.max_depth {
            match subgoal(start, goal) {
                Some(sub) => {
                    let (first, run1) = self.split_segment(start, sub, depth + 1, collides, subgoal);
                    let first = match first {
                        Some(v) => v,
                        None => {
                            return (None, Ghost(SplitRun::Split(sub, Box::new(run1@), None)));
                        },
                    };
                    let (second, run2) = self.split_segment(sub, goal, depth + 1, collides, subgoal);
                    let second = match second {
                        Some(v) => v,
                        None => {
                            return (
                                None,
                                Ghost(SplitRun::Split(sub, Box::new(run1@), Some(Box::new(run2@)))),
                            );
                        },
                    };
                    let ghost a = first@;
                    let ghost b = second@;
                    let mut all = first;
                    let mut rest = second;
                    all.append(&mut rest);
                    proof {
                        lemma_chain_concat(a, b, start, sub, goal);
                        assert(all@ == a + b);
                    }
                    (Some(all), Ghost(SplitRun::Split(sub, Box::new(run1@), Some(Box::new(run2@)))))
                },
                None => (None, Ghost(SplitRun::NoSubgoal)),
            }
        } else {
            let mut v: Vec<(P, P, i32)> = Vec::new();
            v.push((start, goal, depth));
            assert(v@ =~= seq![(start, goal, depth)]);
            (Some(v), Ghost(SplitRun::Piece))
        }
    }

    /// The pieces of the path from `start` to `goal` when going around
    /// obstacles on one side: the segment is split at a subgoal
    /// (`subgoal(a, b)` searches one for the blocked segment from `a` to `b`)
    /// while it is blocked (`collides`) and fewer than the allowed number of
    /// splits led to it, and each half is planned the same way, the first
    /// half first. The path is empty exactly when one of the subgoal searches
    /// made found nothing. Each piece carries the number of splits that led
    /// to it.
    pub fn create_path_direction<P: Copy, C: Fn(P, P) -> bool, S: Fn(P, P) -> Option<P>>(
        &self,
        start: P,
        goal: P,
        collides: &C,
        subgoal: &S,
    ) -> (path: Vec<(P, P, i32)>)
        requires
            forall|a: P, b: P| #[trigger] collides.requires((a, b)),
            forall|a: P, b: P| #[trigger] subgoal.requires((a, b)),
        ensures
            planned_side(path@, start, goal, *collides, *subgoal, self.depth_limit()),
            path@.len() > 0 ==> chains(path@, start, goal),
    {
        let (r, run) = self.split_segment(start, goal, 0, collides, subgoal);
        match r {
            Some(v) => {
                assert(run_follows(run@, start, goal, 0, *collides, *subgoal, self.depth_limit()));
                v
            },
            None => {
                let v: Vec<(P, P, i32)> = Vec::new();
                assert(run_follows(run@, start, goal, 0, *collides, *subgoal, self.depth_limit()));
                v
            },
        }
    }
}

/// The path of the two sides that is kept: the first when it is not empty and
/// has no more pieces than the second, otherwise the second.
pub fn choose_path<T>(first: Vec<T>, second: Vec<T>) -> (chosen: Vec<T>)
    ensures
        chosen@ == (if first@.len() <= second@.len() && first@.len() > 0 {
            first@
        } else {
            second@
        }),
{
    if first.len() <= second.len() && first.len() > 0 {
        first
    } else {
        second
    }
}

/// The waypoints of a planned path: the start of each piece and the end of
/// the last one; just `start` and `goal` when planning found no path.
pub fn waypoints<P: Copy>(segs: &Vec<(P, P, i32)>, start: P, goal: P) -> (points: Vec<P>)
    ensures
        segs@.len() == 0 ==> points@ == seq![start, goal],
        segs@.len() > 0 ==> {
            &&& points@.len() == segs@.len() + 1
            &&& forall|k: int| 0 <= k < segs@.len() ==> #[trigger] points@[k] == segs@[k].0
            &&& points@.last() == segs@.last().1
        },
{
    let mut points: Vec<P> = Vec::new();
    if segs.len() == 0 {
        points.push(start);
        points.push(goal);
        assert(points@ =~= seq![start, goal]);
        return points;
    }
    let mut k: usize = 0;
    while k < segs.len()
        invariant
            k <= segs@.len(),
            points@.len() == k,
            forall|q: int| 0 <= q < k ==> #[trigger] points@[q] == segs@[q].0,
        decreases segs@.len() - k,
    {
        points.push(segs[k].0);
        k += 1;
    }
    let last = segs.len() - 1;
    points.push(segs[last].1);
    points
}

/// The points of `points` at the indices `kept`, in that order.
pub fn pick<P: Copy>(points: &Vec<P>, kept: &Vec<usize>) -> (r: Vec<P>)
    requires
        forall|q: int| 0 <= q < kept@.len() ==> #[trigger] kept@[q] < points@.len(),
    ensures
        r@.len() == kept@.len(),
        forall|q: int| 0 <= q < kept@.len() ==> #[trigger] r@[q] == points@[kept@[q] as int],
{
    let mut r: Vec<P> = Vec::new();
    let mut q: usize = 0;
    while q < kept.len()
        invariant
            q <= kept@.len(),
            forall|i: int| 0 <= i < kept@.len() ==> #[trigger] kept@[i] < points@.len(),
            r@.len() == q,
            forall|i: int| 0 <= i < q ==> #[trigger] r@[i] == points@[kept@[i] as int],
        decreases kept@.len() - q,
    {
        r.push(points[kept[q]]);
        q += 1;
    }
    r
}

impl FastPathPlanner {
    /// The waypoints from `from` to `to` around obstacles: the path of the
    /// side kept (`right`, then `left`, search the subgoals of each side), as
    /// waypoints, shortened to the farthest waypoints reachable in a free
    /// straight segment. `collides(a, b)` tells whether the straight segment
    /// from `a` to `b` is blocked.
    pub fn get_path<
        P: Copy,
        C: Fn(P, P) -> bool,
        R: Fn(P, P) -> Option<P>,
        L: Fn(P, P) -> Option<P>,
    >(&self, from: P, to: P, collides: &C, right: &R, left: &L) -> (points: Vec<P>)
        requires
            forall|a: P, b: P| #[trigger] collides.requires((a, b)),
            forall|a: P, b: P| #[trigger] right.requires((a, b)),
            forall|a: P, b: P| #[trigger] left.requires((a, b)),
        ensures
            exists|r: Seq<(P, P, i32)>, l: Seq<(P, P, i32)>, kept: Seq<usize>|
                {
                    &&& #[trigger] planned_side(r, from, to, *collides, *right, self.depth_limit())
                    &&& #[trigger] planned_side(l, from, to, *collides, *left, self.depth_limit())
                    &&& #[trigger] shortened(
                        kept,
                        path_waypoints(chosen_side(r, l), from, to),
                        *collides,
                    )
                    &&& points@ == kept.map_values(
                        |k: usize| path_waypoints(chosen_side(r, l), from, to)[k as int],
                    )
                },
            points@.len() >= 2,
            points@[0] == from,
            points@.last() == to,
    {
        let path_right = self.create_path_direction(from, to, collides, right);
        let path_left = self.create_path_direction(from, to, collides, left);
        let ghost r = path_right@;
        let ghost l = path_left@;
        let raw = choose_path(path_right, path_left);
        let points = waypoints(&raw, from, to);
        let ghost w = path_waypoints(chosen_side(r, l), from, to);
        assert(points@ =~= w);
        let n = points.len();
        let clear = |i: usize, j: usize| -> (free: bool)
            requires
                i < points@.len(),
                j < points@.len(),
                forall|a: P, b: P| #[trigger] collides.requires((a, b)),
            ensures
                collides.ensures((points@[i as int], points@[j as int]), !free),
        {
            let blocked = collides(points[i], points[j]);
            !blocked
        };
        assert forall|i: usize, j: usize| i < j < n implies #[trigger] clear.requires((i, j)) by {}
        let kept = simplify_indices(n, clear);
        proof {
            if n > 2 {
                assert forall|q: int| 0 <= q < kept@.len() - 1 implies farthest_free(
                    *collides,
                    w,
                    #[trigger] kept@[q] as int,
                    kept@[q + 1] as int,
                ) by {
                    let i = kept@[q];
                    let j = kept@[q + 1];
                    assert(farthest_clear(clear, n, i, j));
                    if j != i + 1 {
                        assert(clear.ensures((i, j), true));
                    }
                    assert forall|k: int| j < k < w.len() implies #[trigger] collides.ensures(
                        (w[i as int], w[k]),
                        true,
                    ) by {
                        let ku = k as usize;
                        assert(clear.ensures((i, ku), false));
                    }
                }
            }
            assert(shortened(kept@, w, *collides));
            assert forall|q: int| 0 <= q < kept@.len() implies #[trigger] kept@[q] < points@.len() by {
                if n > 2 {
                    if q > 0 {
                        assert(kept@[q] <= kept@.last()) by {
                            if q < kept@.len() - 1 {
                                assert(kept@[q] < kept@[kept@.len() - 1]);
                            }
                        }
                    }
                } else {
                    assert(kept@[q] == q as usize);
                }
            }
        }
        let result = pick(&points, &kept);
        proof {
            assert(result@ =~= kept@.map_values(|k: usize| w[k as int]));
            assert(w.len() >= 2);
            if r.len() > 0 {
                assert(chains(r, from, to));
            }
            if l.len() > 0 {
                assert(chains(l, from, to));
            }
            let c = chosen_side(r, l);
            assert(w[0] == from);
            assert(w[w.len() - 1] == to);
            if n <= 2 {
                assert(kept@[0] == 0 && kept@[kept@.len() - 1] == n - 1);
            }
            assert(result@[0] == w[0]);
            assert(result@.last() == w[w.len() - 1]);
            assert(planned_side(r, from, to, *collides, *right, self.depth_limit()));
            assert(planned_side(l, from, to, *collides, *left, self.depth_limit()));
        }
        result
    }
}

} // verus!
