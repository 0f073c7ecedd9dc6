//! The Lua console's bounded log of printed lines.
use crate::text::{trim, trimmed};
use std::collections::VecDeque;
use vstd::prelude::*;

verus! {

/// Most lines the console ever keeps.
pub const DEFAULT_MAX_LINES: usize = 100;

pub struct LuaConsolePanel {
    pub open: bool,
    logs: VecDeque<String>,
    max_lines: usize,
}

/// The last `max` elements of `s` (all of them when there are fewer).
pub open spec fn keep_last<T>(s: Seq<T>, max: nat) -> Seq<T> {
    if s.len() > max {
        s.skip(s.len() - max)
    } else {
        s
    }
}

pub open spec fn min_usize(a: usize, b: usize) -> usize {
    if a < b { a } else { b }
}

impl LuaConsolePanel {
    pub closed spec fn is_open(&self) -> bool {
        self.open
    }

    pub closed spec fn lines(&self) -> Seq<String> {
        self.logs@
    }

    pub closed spec fn capacity(&self) -> nat {
        self.max_lines as nat
    }

    /// The log never holds more lines than its capacity.
    pub closed spec fn wf(&self) -> bool {
        self.logs@.len() <= self.max_lines
    }

    /// A closed, empty console keeping at most `min(100, max_lines)` lines.
    pub fn new(max_lines: usize) -> (c: Self)
        ensures
            c.wf(),
            !c.is_open(),
            c.lines().len() == 0,
            c.capacity() == min_usize(DEFAULT_MAX_LINES, max_lines),
    {
        let max = if DEFAULT_MAX_LINES < max_lines { DEFAULT_MAX_LINES } else { max_lines };
        LuaConsolePanel { open: false, logs: VecDeque::new(), max_lines: max }
    }

    pub fn len(&self) -> (n: usize)
        ensures
            n == self.lines().len(),
    {
        self.logs.len()
    }

    pub fn line(&self, i: usize) -> (l: &String)
        requires
            i < self.lines().len(),
        ensures
            *l == self.lines()[i as int],
    {
        &self.logs[i]
    }

    fn drop_oldest(&mut self)
        ensures
            final(self).logs@ == keep_last(old(self).logs@, old(self).max_lines as nat),
            final(self).max_lines == old(self).max_lines,
            final(self).open == old(self).open,
    {
        let ghost start = self.logs@;
        while self.logs.len() > self.max_lines
            invariant
                self.max_lines == old(self).max_lines,
                self.open == old(self).open,
                start == old(self).logs@,
                start.len() >= self.logs@.len(),
                self.logs@ == start.skip(start.len() - self.logs@.len()),
                self.logs@.len() >= (if start.len() > self.max_lines {
                    self.max_lines as int
                } else {
                    start.len() as int
                }),
            decreases self.logs@.len(),
        {
            let ghost before = self.logs@;
            self.logs.pop_front();
            assert(self.logs@ =~= start.skip(start.len() - self.logs@.len()));
        }
        assert(start.skip(0) =~= start);
    }

    /// Appends a printed line unless it is blank, dropping the oldest lines
    /// beyond the capacity; says whether the line was kept.
    pub fn push_line(&mut self, line: String) -> (added: bool)
        requires
            old(self).wf(),
        ensures
            final(self).wf(),
            final(self).is_open() == old(self).is_open(),
            final(self).capacity() == old(self).capacity(),
            added == (trimmed(line@).len() > 0),
            added ==> final(self).lines() == keep_last(
                old(self).lines().push(line),
                old(self).capacity(),
            ),
            !added ==> final(self).lines() == old(self).lines(),
    {
        if trim(line.as_str()).unicode_len() == 0 {
            return false;
        }
        self.logs.push_back(line);
        self.drop_oldest();
        true
    }

    /// Changes the capacity to `min(100, max_lines)`, dropping the oldest lines
    /// that no longer fit.
    pub fn set_max_lines(&mut self, max_lines: usize)
        ensures
            final(self).wf(),
            final(self).is_open() == old(self).is_open(),
            final(self).capacity() == min_usize(DEFAULT_MAX_LINES, max_lines),
            final(self).lines() == keep_last(old(self).lines(), final(self).capacity()),
    {
        self.max_lines = if DEFAULT_MAX_LINES < max_lines { DEFAULT_MAX_LINES } else { max_lines };
        self.drop_oldest();
    }

    pub fn set_open(&mut self, open: bool)
        ensures
            final(self).is_open() == open,
            final(self).lines() == old(self).lines(),
            final(self).capacity() == old(self).capacity(),
            final(self).wf() == old(self).wf(),
    {
        self.open = open;
    }

    pub fn is_shown(&self) -> (b: bool)
        ensures
            b == self.is_open(),
    {
        self.open
    }
}

} // verus!
