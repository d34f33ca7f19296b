use vstd::prelude::*;

verus! {

/// A range of indices that is walked in steps of a fixed width: `start`,
/// `start + step`, `start + 2 * step`, and so on, as long as they stay
/// below `end`.
pub struct SimpleStepRange {
    start: usize,
    end: usize,
    step: usize,
}

/// The index one step after `start`, or the largest index where that step
/// would leave the range of `usize`.
pub open spec fn stepped(start: usize, step: usize) -> usize {
    if start + step <= usize::MAX {
        (start + step) as usize
    } else {
        usize::MAX
    }
}

impl SimpleStepRange {
    /// The index that `next` hands out next, if it is below the end.
    pub closed spec fn start(&self) -> usize {
        self.start
    }

    /// The bound that the indices stay below.
    pub closed spec fn end(&self) -> usize {
        self.end
    }

    /// The distance from one index to the next.
    pub closed spec fn step(&self) -> usize {
        self.step
    }

    /// The range from `start` up to `end`, exclusive, in steps of `step`.
    pub fn new(start: usize, end: usize, step: usize) -> (range: SimpleStepRange)
        ensures
            range.start() == start,
            range.end() == end,
            range.step() == step,
    {
        SimpleStepRange { start, end, step }
    }

    /// Hands out the current index and moves on by one step, or returns
    /// `None` once the end is reached. A step that would leave the range of
    /// `usize` moves to its largest value, from where the end is reached.
    pub fn next(&mut self) -> (item: Option<usize>)
        ensures
            final(self).end() == old(self).end(),
            final(self).step() == old(self).step(),
            old(self).start() < old(self).end() ==> item == Some(old(self).start()),
            old(self).start() < old(self).end() ==> final(self).start() == stepped(
                old(self).start(),
                old(self).step(),
            ),
            old(self).start() >= old(self).end() ==> item is None,
            old(self).start() >= old(self).end() ==> final(self).start() == old(self).start(),
    {
        if self.start < self.end {
            let v = self.start;
            self.start = v.saturating_add(self.step);
            Some(v)
        } else {
            None
        }
    }
}

} // verus!
