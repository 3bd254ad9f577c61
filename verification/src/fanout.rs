//! The bounded fan-out discipline of the routing stage: per-model fetches
//! run concurrently, never more than the fixed width at once; fetches
//! beyond the width wait for a slot.

use vstd::prelude::*;

verus! {

/// How many routing-option fetches may be in flight at once.
pub const FAN_OUT_WIDTH: u64 = 8;

/// The progress of one bounded fan-out: how many fetches exist, have been
/// started, and have finished.
pub struct FanOut {
    pub total: u64,
    pub started: u64,
    pub finished: u64,
}

/// A well-formed fan-out never finishes more than it started, never starts
/// more than it has, and never exceeds the width in flight.
pub open spec fn fanout_wf(f: FanOut) -> bool {
    &&& f.finished <= f.started <= f.total
    &&& f.started - f.finished <= FAN_OUT_WIDTH
}

impl FanOut {
    /// A fresh fan-out over `total` fetches; none started.
    pub fn new(total: u64) -> (r: FanOut)
        ensures
            fanout_wf(r),
            r.total == total,
            r.started == 0,
            r.finished == 0,
    {
        FanOut { total, started: 0, finished: 0 }
    }

    /// Whether another fetch may start now: work remains and a slot is
    /// free.
    pub fn can_start(&self) -> (r: bool)
        requires
            fanout_wf(*self),
        ensures
            r == (self.started < self.total && self.started - self.finished < FAN_OUT_WIDTH),
    {
        self.started < self.total && self.started - self.finished < FAN_OUT_WIDTH
    }

    /// Starts one fetch.
    pub fn start(&mut self)
        requires
            fanout_wf(*old(self)),
            old(self).started < old(self).total,
            old(self).started - old(self).finished < FAN_OUT_WIDTH,
        ensures
            fanout_wf(*final(self)),
            final(self).started == old(self).started + 1,
            final(self).finished == old(self).finished,
            final(self).total == old(self).total,
    {
        self.started = self.started + 1;
    }

    /// Finishes one in-flight fetch, freeing its slot.
    pub fn finish(&mut self)
        requires
            fanout_wf(*old(self)),
            old(self).finished < old(self).started,
        ensures
            fanout_wf(*final(self)),
            final(self).finished == old(self).finished + 1,
            final(self).started == old(self).started,
            final(self).total == old(self).total,
    {
        self.finished = self.finished + 1;
    }

    /// How many fetches are in flight now.
    pub fn in_flight(&self) -> (r: u64)
        requires
            fanout_wf(*self),
        ensures
            r == self.started - self.finished,
            r <= FAN_OUT_WIDTH,
    {
        self.started - self.finished
    }

    /// Whether every fetch has finished.
    pub fn is_done(&self) -> (r: bool)
        requires
            fanout_wf(*self),
        ensures
            r == (self.finished == self.total),
    {
        self.finished == self.total
    }
}

/// The fan-out keeps its bound in every reachable state: no more than the
/// fixed width of fetches is ever in flight, and a fetch beyond the width
/// cannot start until one in flight finishes.
pub proof fn lemma_fanout_bounded(f: FanOut)
    requires
        fanout_wf(f),
    ensures
        f.started - f.finished <= FAN_OUT_WIDTH,
        f.started - f.finished == FAN_OUT_WIDTH ==> !(f.started < f.total && f.started
            - f.finished < FAN_OUT_WIDTH),
{
}

} // verus!
