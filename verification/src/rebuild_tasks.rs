//! The pool of rebuild copy tasks and its completion channel.
//!
//! In the engine, a fixed pool of workers copies segments concurrently
//! and posts a result per segment on a shared channel.  The model keeps
//! the pool's books — in-flight count, segments attempted, segments
//! actually transferred — and the queue of results not yet collected.

use vstd::prelude::*;

use crate::rebuild_state::RebuildError;

verus! {

/// Result of one copy task: which task, which starting block, and the
/// error if the copy failed.
#[derive(Debug, Clone, Copy, PartialEq, Eq, Structural)]
pub struct TaskResult {
    /// Identifier of the task slot.
    pub id: usize,
    /// First block of the segment the task worked on.
    pub blk: u64,
    /// The I/O error, if the copy failed.
    pub error: Option<RebuildError>,
}

/// The fixed pool of copy tasks.
pub struct RebuildTasks {
    /// Number of task slots.
    pub total: usize,
    /// Tasks in flight.
    pub active: usize,
    /// Segments the pool has attempted (copied or skipped as clean).
    pub segments_done: u64,
    /// Segments whose data was actually read and written; clean-skipped
    /// segments do not count.
    pub segments_transferred: u64,
    /// Results posted but not yet collected, oldest first.
    pub results: Vec<TaskResult>,
}

impl RebuildTasks {
    /// Every in-flight task owes exactly one queued result, the pool is
    /// never over-committed, and only attempted segments transfer.
    pub open spec fn wf(self) -> bool {
        &&& self.active == self.results.len()
        &&& self.active <= self.total
        &&& self.segments_transferred <= self.segments_done
    }

    /// A fresh pool of `total` idle tasks.
    pub fn new(total: usize) -> (r: Self)
        ensures
            r.wf(),
            r.total == total,
            r.active == 0,
            r.segments_done == 0,
            r.segments_transferred == 0,
            r.results@ =~= Seq::<TaskResult>::empty(),
    {
        RebuildTasks { total, active: 0, segments_done: 0, segments_transferred: 0, results: Vec::new() }
    }

    /// Whether any task is still in flight.
    pub fn running(&self) -> (r: bool)
        ensures
            r == (self.active > 0),
    {
        self.active > 0
    }

    /// Collect the oldest uncollected task result.
    pub fn await_one_task(&mut self) -> (r: TaskResult)
        requires
            old(self).wf(),
            old(self).active > 0,
        ensures
            final(self).wf(),
            r == old(self).results@[0],
            final(self).results@ == old(self).results@.skip(1),
            final(self).active == old(self).active - 1,
            final(self).total == old(self).total,
            final(self).segments_done == old(self).segments_done,
            final(self).segments_transferred == old(self).segments_transferred,
    {
        self.active = self.active - 1;
        let r = self.results.remove(0);
        proof {
            assert(self.results@ =~= old(self).results@.skip(1));
        }
        r
    }
}

} // verus!
