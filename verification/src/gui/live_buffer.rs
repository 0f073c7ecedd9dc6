//! The bounded buffer of points behind each live chart series.
use crate::gui::lua_console::keep_last;
use std::collections::VecDeque;
use vstd::prelude::*;

verus! {

/// Points a series keeps for its live plot.
pub const LIVE_BUFFER_SIZE: usize = 600;

/// The newest points of a live series, at most [`LIVE_BUFFER_SIZE`] of them.
pub struct LiveBuffer<T> {
    points: VecDeque<T>,
}

impl<T> LiveBuffer<T> {
    pub closed spec fn points_view(&self) -> Seq<T> {
        self.points@
    }

    /// The buffer never holds more than its size.
    pub closed spec fn wf(&self) -> bool {
        self.points@.len() <= LIVE_BUFFER_SIZE
    }

    pub fn new() -> (b: Self)
        ensures
            b.wf(),
            b.points_view().len() == 0,
    {
        LiveBuffer { points: VecDeque::new() }
    }

    /// Appends a point; when the buffer is full its oldest point is dropped.
    pub fn push(&mut self, point: T)
        requires
            old(self).wf(),
        ensures
            final(self).wf(),
            final(self).points_view() == keep_last(
                old(self).points_view().push(point),
                LIVE_BUFFER_SIZE as nat,
            ),
    {
        let ghost before = self.points@;
        if self.points.len() >= LIVE_BUFFER_SIZE {
            self.points.pop_front();
        }
        self.points.push_back(point);
        proof {
            let pushed = before.push(point);
            if before.len() >= LIVE_BUFFER_SIZE {
                assert(self.points@ =~= pushed.skip(pushed.len() - LIVE_BUFFER_SIZE));
            } else {
                assert(self.points@ =~= pushed);
            }
        }
    }

    /// Drops every point.
    pub fn clear(&mut self)
        ensures
            final(self).wf(),
            final(self).points_view().len() == 0,
    {
        self.points = VecDeque::new();
    }

    pub fn len(&self) -> (n: usize)
        ensures
            n == self.points_view().len(),
    {
        self.points.len()
    }

    pub fn get(&self, i: usize) -> (p: &T)
        requires
            i < self.points_view().len(),
        ensures
            *p == self.points_view()[i as int],
    {
        &self.points[i]
    }
}

} // verus!
