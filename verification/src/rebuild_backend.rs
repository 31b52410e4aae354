//! The rebuild job backend: the management loop that drives the task
//! pool, reconciles states and answers frontend queries.
//!
//! The backend owns all mutation.  A frontend hands it requests over a
//! channel — modelled here as the queue the backend drains — and the
//! backend answers control messages at its suspension points: in this
//! model, while it is not running, and before each copy phase.

use vstd::prelude::*;

use crate::clock;
use crate::iolog::{lemma_dirty_count_all_clean, lemma_dirty_count_clear, spec_dirty_count,
    RebuildMap, SEGMENT_SIZE};
use crate::rebuild_state::{RebuildError, RebuildOperation, RebuildState, RebuildStates};
use crate::rebuild_tasks::{RebuildTasks, TaskResult};
use crate::storage::{copy_blocks, BlockStore};

verus! {

/// Number of concurrent copy tasks of a rebuild job.
pub const SEGMENT_TASKS: usize = 16;

/// The smaller of two numbers.
pub open spec fn spec_min(a: int, b: int) -> int {
    if a <= b {
        a
    } else {
        b
    }
}

/// Blocks recovered never shrink: as the pool attempts more segments,
/// the recovered count of the statistics is non-decreasing.
pub proof fn lemma_blocks_recovered_monotone(
    done1: u64,
    done2: u64,
    segment_size_blks: u64,
    total: int,
)
    requires
        done1 <= done2,
    ensures
        spec_min(done1 * segment_size_blks, total) <= spec_min(done2 * segment_size_blks, total),
{
    assert(done1 * segment_size_blks <= done2 * segment_size_blks) by (nonlinear_arith)
        requires
            done1 <= done2,
            segment_size_blks >= 0,
    ;
}

/// A byte within a block window lies in a block within that window.
proof fn lemma_byte_block(i: int, b1: int, b2: int, bs: int)
    requires
        bs > 0,
        0 <= b1,
        b1 * bs <= i < b2 * bs,
    ensures
        b1 <= i / bs < b2,
{
    vstd::arithmetic::div_mod::lemma_div_multiples_vanish(b1, bs);
    assert(bs * b1 == b1 * bs) by (nonlinear_arith);
    vstd::arithmetic::div_mod::lemma_div_is_ordered(b1 * bs, i, bs);
    vstd::arithmetic::div_mod::lemma_fundamental_div_mod(i, bs);
    vstd::arithmetic::div_mod::lemma_mod_bound(i, bs);
    assert(i / bs < b2) by (nonlinear_arith)
        requires
            i == bs * (i / bs) + i % bs,
            0 <= i % bs < bs,
            i < b2 * bs,
            bs > 0,
    ;
}

/// A byte at or past an aligned block cursor lies in a segment at or
/// past that cursor.
proof fn lemma_grid_at_or_past(i: int, cursor: int, bs: int, ssb: int)
    requires
        bs > 0,
        ssb > 0,
        cursor >= 0,
        cursor % ssb == 0,
        i >= cursor * bs,
        i >= 0,
    ensures
        ((i / bs) / ssb) * ssb >= cursor,
{
    let q = i / bs;
    vstd::arithmetic::div_mod::lemma_div_multiples_vanish(cursor, bs);
    assert(bs * cursor == cursor * bs) by (nonlinear_arith);
    vstd::arithmetic::div_mod::lemma_div_is_ordered(cursor * bs, i, bs);
    assert(q >= cursor);
    let k = cursor / ssb;
    vstd::arithmetic::div_mod::lemma_fundamental_div_mod(cursor, ssb);
    assert(cursor == ssb * k);
    vstd::arithmetic::div_mod::lemma_div_is_ordered(cursor, q, ssb);
    vstd::arithmetic::div_mod::lemma_div_multiples_vanish(k, ssb);
    assert(cursor / ssb == k);
    assert(q / ssb >= k);
    assert((q / ssb) * ssb >= k * ssb && k * ssb == ssb * k) by (nonlinear_arith)
        requires
            q / ssb >= k,
            ssb > 0,
    ;
}

/// A block inside one aligned segment maps to that segment.
proof fn lemma_block_in_segment(q: int, blk: int, ssb: int)
    requires
        ssb > 0,
        blk >= 0,
        blk % ssb == 0,
        blk <= q < blk + ssb,
    ensures
        q / ssb == blk / ssb,
{
    let k = blk / ssb;
    vstd::arithmetic::div_mod::lemma_fundamental_div_mod(blk, ssb);
    assert(blk == ssb * k);
    let r = q - blk;
    assert(q == ssb * k + r && 0 <= r < ssb);
    vstd::arithmetic::div_mod::lemma_div_multiples_vanish_fancy(k, r, ssb);
}

/// A request from the frontend to the backend.
#[derive(Debug)]
pub enum RebuildJobRequest {
    /// Wake the backend up to check for new state information.
    WakeUp,
    /// Ask for the current statistics; the backend replies on its reply
    /// queue.
    GetStats,
    /// Install a rebuild map for a partial rebuild.
    SetRebuildMap(RebuildMap),
    /// Request a state operation; the backend's reconciler promotes it.
    Op(RebuildOperation),
}

/// The request is a client operation whose target state is `Running`: a
/// start or a resume.
pub open spec fn spec_is_start_request(r: RebuildJobRequest) -> bool {
    r matches RebuildJobRequest::Op(op) && op.spec_target() == RebuildState::Running
}

/// Every operation request in the queue targets `Running`: nothing in it
/// pauses, stops or fails the job.
pub open spec fn spec_only_start_ops(q: Seq<RebuildJobRequest>) -> bool {
    forall|k: int|
        0 <= k < q.len() ==> ((#[trigger] q[k]) matches RebuildJobRequest::Op(op)
            ==> op.spec_target() == RebuildState::Running)
}

/// Some request in the queue starts or resumes the job.
pub open spec fn spec_has_start_request(q: Seq<RebuildJobRequest>) -> bool {
    exists|k: int| 0 <= k < q.len() && spec_is_start_request(#[trigger] q[k])
}

/// The queue holds no operation request at all.
pub open spec fn spec_no_op_requests(q: Seq<RebuildJobRequest>) -> bool {
    forall|k: int| 0 <= k < q.len() ==> !((#[trigger] q[k]) is Op)
}

/// Consuming the head of a request queue keeps the queue's character:
/// only-start stays only-start, no-ops stays no-ops, and a queued start
/// survives unless the head itself was the start.
proof fn lemma_queue_tail(q: Seq<RebuildJobRequest>)
    requires
        q.len() > 0,
    ensures
        spec_only_start_ops(q) ==> spec_only_start_ops(q.skip(1)),
        spec_no_op_requests(q) ==> spec_no_op_requests(q.skip(1)),
        spec_has_start_request(q) && !spec_is_start_request(q[0]) ==> spec_has_start_request(
            q.skip(1),
        ),
{
    assert(forall|k: int| 0 <= k < q.len() - 1 ==> (#[trigger] q.skip(1)[k]) == q[k + 1]);
    if spec_has_start_request(q) && !spec_is_start_request(q[0]) {
        let k = choose|k: int| 0 <= k < q.len() && spec_is_start_request(#[trigger] q[k]);
        assert(k != 0);
        assert(spec_is_start_request(q.skip(1)[k - 1]));
    }
}

/// Immutable per-job configuration, plus the slot for a rebuild map
/// installable exactly once.
pub struct RebuildDescriptor {
    /// Source URI of the healthy child to rebuild from.
    pub src_uri: String,
    /// Target URI of the out-of-sync child in need of a rebuild.
    pub dst_uri: String,
    /// First block of the range to rebuild.
    pub range_start: u64,
    /// One past the last block of the range to rebuild.
    pub range_end: u64,
    /// Bytes per block, identical on source and destination.
    pub block_size: u64,
    /// Blocks per copy segment.
    pub segment_size_blks: u64,
    /// Dirty-segment map of a partial rebuild, if one was installed.
    pub rebuild_map: Option<RebuildMap>,
    /// When the job was created, in milliseconds.
    pub start_time_millis: i64,
}

impl RebuildDescriptor {
    /// Geometry soundness, and — when a map is installed — agreement
    /// between the map's grid and the copy grid.
    pub open spec fn wf(self) -> bool {
        &&& self.block_size > 0
        &&& self.segment_size_blks > 0
        &&& self.range_start <= self.range_end
        &&& self.range_end + self.segment_size_blks <= u64::MAX
        &&& self.range_end - self.range_start <= u64::MAX as int / 100
        &&& (self.rebuild_map matches Some(m) ==> {
            &&& m.wf()
            &&& m.segment_size_blks == self.segment_size_blks
            &&& m.num_blocks >= self.range_end
            &&& self.range_start % self.segment_size_blks == 0
        })
    }

    /// Number of blocks the job covers.
    pub open spec fn spec_blocks_total(self) -> int {
        self.range_end - self.range_start
    }
}

/// A rebuild job backend: reads from the source, writes to the
/// destination, from the start of the range to its end.
pub struct RebuildJobBackend {
    /// Name of the nexus associated with the rebuild job.
    pub nexus_name: String,
    /// Source URI of the healthy child to rebuild from.
    pub src_uri: String,
    /// Target URI of the out-of-sync child in need of a rebuild.
    pub dst_uri: String,
    /// The next block to be rebuilt.
    pub next: u64,
    /// The pool of tasks which perform the actual data rebuild.
    pub task_pool: RebuildTasks,
    /// Current, pending and error state of the job.
    pub states: RebuildStates,
    /// The job's configuration.
    pub descriptor: RebuildDescriptor,
    /// The source device's blocks.
    pub src_store: BlockStore,
    /// The destination device's blocks.
    pub dst_store: BlockStore,
    /// Requests from the frontend, oldest first; the backend drains them
    /// at its suspension points.
    pub requests: Vec<RebuildJobRequest>,
    /// Statistics replies, in the order the queries were answered.
    pub stats_replies: Vec<RebuildStats>,
    /// States broadcast to listeners on every current-state change.
    pub notifications: Vec<RebuildState>,
    /// Job serial number, for logging.
    pub serial: u64,
}

/// Rebuild statistics at one instant.
#[derive(Debug, Clone, Copy, PartialEq, Eq, Structural)]
pub struct RebuildStats {
    /// When the job was created, in milliseconds.
    pub start_time_millis: i64,
    /// Whether a rebuild map is installed: a partial rebuild.
    pub is_partial: bool,
    /// Blocks in the range.
    pub blocks_total: u64,
    /// Blocks whose segments have been attempted, clamped to the total.
    pub blocks_recovered: u64,
    /// Blocks actually read and written, clamped to the total.
    pub blocks_transferred: u64,
    /// Blocks still to go: the map's dirty count, or total minus
    /// recovered.
    pub blocks_remaining: u64,
    /// Percentage of recovered blocks.
    pub progress: u64,
    /// Blocks per copy task segment.
    pub blocks_per_task: u64,
    /// Bytes per block.
    pub block_size: u64,
    /// Number of task slots.
    pub tasks_total: u64,
    /// Tasks in flight.
    pub tasks_active: u64,
}

impl RebuildJobBackend {
    /// The dispatch cursor matches the books: `next` has advanced one
    /// segment per attempted segment, clamped to the end of the range.
    pub open spec fn next_ok(self) -> bool {
        &&& self.next == spec_min(
            self.descriptor.range_start + self.task_pool.segments_done
                * self.descriptor.segment_size_blks,
            self.descriptor.range_end as int,
        )
        &&& self.task_pool.segments_done * self.descriptor.segment_size_blks
            <= self.descriptor.spec_blocks_total() + self.descriptor.segment_size_blks
    }

    /// Dirty segments of an installed map lie wholly in the unprocessed
    /// part of the range.
    pub open spec fn map_inv(self) -> bool {
        self.descriptor.rebuild_map matches Some(m) ==> forall|s: int|
            0 <= s < m.dirty.len() && #[trigger] m.spec_dirty(s) ==> self.next <= s
                * m.segment_size_blks && s * m.segment_size_blks < self.descriptor.range_end
    }

    /// A completed job — current or about to be promoted — has dispatched
    /// the whole range.
    pub open spec fn completion_sound(self) -> bool {
        (self.states.pending == Some(RebuildState::Completed) || self.states.current
            == RebuildState::Completed) ==> self.next >= self.descriptor.range_end
    }

    /// The model's task results never carry an error: the in-memory copy
    /// is total.
    pub open spec fn results_clean(self) -> bool {
        forall|k: int|
            0 <= k < self.task_pool.results.len() ==> (#[trigger] self.task_pool.results@[k]).error
                is None
    }

    /// Without a map every attempted segment is actually transferred.
    pub open spec fn full_copy_counts(self) -> bool {
        self.descriptor.rebuild_map is None ==> self.task_pool.segments_transferred
            == self.task_pool.segments_done
    }

    /// Well-formedness of the whole backend.
    pub open spec fn wf(self) -> bool {
        &&& self.descriptor.wf()
        &&& self.task_pool.wf()
        &&& self.full_copy_counts()
        &&& self.task_pool.total > 0
        &&& self.src_store.wf()
        &&& self.dst_store.wf()
        &&& self.src_store.block_len == self.descriptor.block_size
        &&& self.dst_store.block_len == self.descriptor.block_size
        &&& self.descriptor.range_end <= self.src_store.spec_num_blocks()
        &&& self.descriptor.range_end <= self.dst_store.spec_num_blocks()
        &&& self.next_ok()
        &&& self.map_inv()
        &&& self.completion_sound()
        &&& self.results_clean()
    }

    /// The state the job acts under once the first reconciliation has
    /// promoted any pending request.
    pub open spec fn spec_entry_state(self) -> RebuildState {
        match self.states.pending {
            Some(p) => p,
            None => self.states.current,
        }
    }

    /// The fields an operation never touches: identity, configuration,
    /// the source data, and the destination geometry.
    pub open spec fn same_frame(self, other: Self) -> bool {
        &&& other.nexus_name == self.nexus_name
        &&& other.src_uri == self.src_uri
        &&& other.dst_uri == self.dst_uri
        &&& other.serial == self.serial
        &&& other.src_store == self.src_store
        &&& other.dst_store.block_len == self.dst_store.block_len
        &&& other.dst_store.data@.len() == self.dst_store.data@.len()
        &&& other.task_pool.total == self.task_pool.total
        &&& other.descriptor.src_uri == self.descriptor.src_uri
        &&& other.descriptor.dst_uri == self.descriptor.dst_uri
        &&& other.descriptor.range_start == self.descriptor.range_start
        &&& other.descriptor.range_end == self.descriptor.range_end
        &&& other.descriptor.block_size == self.descriptor.block_size
        &&& other.descriptor.segment_size_blks == self.descriptor.segment_size_blks
        &&& other.descriptor.start_time_millis == self.descriptor.start_time_millis
    }

    /// The source and destination are compatible for this range: the
    /// range lies within both devices, the block sizes agree, a segment
    /// holds at least one block, and the counters cannot overflow.
    pub open spec fn spec_params_valid(
        range_start: u64,
        range_end: u64,
        src: BlockStore,
        dst: BlockStore,
    ) -> bool {
        &&& range_start <= range_end
        &&& range_end <= src.spec_num_blocks()
        &&& range_end <= dst.spec_num_blocks()
        &&& src.block_len == dst.block_len
        &&& dst.block_len <= SEGMENT_SIZE
        &&& range_end <= u64::MAX - SEGMENT_SIZE
        &&& range_end - range_start <= u64::MAX as int / 100
    }

    /// Creates a new rebuild job backend over the given source and
    /// destination, validating the range and the block sizes.
    pub fn new(
        nexus_name: String,
        src_uri: String,
        dst_uri: String,
        range_start: u64,
        range_end: u64,
        src_store: BlockStore,
        dst_store: BlockStore,
        requests: Vec<RebuildJobRequest>,
        serial: u64,
    ) -> (r: Result<RebuildJobBackend, RebuildError>)
        requires
            src_store.wf(),
            dst_store.wf(),
        ensures
            (r is Ok) == Self::spec_params_valid(range_start, range_end, src_store, dst_store),
            r matches Err(e) ==> e == RebuildError::InvalidParameters,
            r matches Ok(b) ==> {
                &&& b.wf()
                &&& b.nexus_name == nexus_name
                &&& b.src_uri == src_uri
                &&& b.dst_uri == dst_uri
                &&& b.next == range_start
                &&& b.states == (RebuildStates {
                    current: RebuildState::Init,
                    pending: None,
                    error: None,
                })
                &&& b.task_pool.total == SEGMENT_TASKS
                &&& b.task_pool.active == 0
                &&& b.task_pool.segments_done == 0
                &&& b.task_pool.segments_transferred == 0
                &&& b.descriptor.range_start == range_start
                &&& b.descriptor.range_end == range_end
                &&& b.descriptor.block_size == dst_store.block_len
                &&& b.descriptor.segment_size_blks == SEGMENT_SIZE as int
                    / dst_store.block_len as int
                &&& b.descriptor.rebuild_map is None
                &&& b.src_store == src_store
                &&& b.dst_store == dst_store
                &&& b.requests == requests
                &&& b.stats_replies@ =~= Seq::<RebuildStats>::empty()
                &&& b.notifications@ =~= Seq::<RebuildState>::empty()
                &&& b.serial == serial
            },
    {
        if !Self::validate(&src_store, &dst_store, range_start, range_end) {
            return Err(RebuildError::InvalidParameters);
        }
        let block_size = dst_store.block_len();
        let segment_size_blks = SEGMENT_SIZE / block_size;
        proof {
            assert(SEGMENT_SIZE as int / block_size as int >= 1) by (nonlinear_arith)
                requires
                    0 < block_size <= SEGMENT_SIZE,
            ;
        }
        let backend = RebuildJobBackend {
            nexus_name,
            src_uri: src_uri.clone(),
            dst_uri: dst_uri.clone(),
            next: range_start,
            task_pool: RebuildTasks::new(SEGMENT_TASKS),
            states: RebuildStates::new(),
            descriptor: RebuildDescriptor {
                src_uri,
                dst_uri,
                range_start,
                range_end,
                block_size,
                segment_size_blks,
                rebuild_map: None,
                start_time_millis: clock::now_millis(),
            },
            src_store,
            dst_store,
            requests,
            stats_replies: Vec::new(),
            notifications: Vec::new(),
            serial,
        };
        proof {
            assert(backend.next_ok());
        }
        Ok(backend)
    }

    /// Check that source and destination are compatible for this rebuild
    /// range.
    fn validate(src: &BlockStore, dst: &BlockStore, range_start: u64, range_end: u64) -> (r: bool)
        requires
            src.wf(),
            dst.wf(),
        ensures
            r == Self::spec_params_valid(range_start, range_end, *src, *dst),
    {
        range_start <= range_end && range_end <= src.num_blocks() && range_end <= dst.num_blocks()
            && src.block_len() == dst.block_len() && dst.block_len() <= SEGMENT_SIZE && range_end
            <= u64::MAX - SEGMENT_SIZE && range_end - range_start <= u64::MAX / 100
    }

    /// State of the rebuild job.
    pub fn state(&self) -> (r: RebuildState)
        ensures
            r == self.states.current,
    {
        self.states.current
    }

    /// The statistics the job reports, as a function of its state.
    pub open spec fn spec_stats(self) -> RebuildStats {
        let total = self.descriptor.spec_blocks_total();
        let recovered = spec_min(
            self.task_pool.segments_done * self.descriptor.segment_size_blks,
            total,
        );
        let transferred = spec_min(
            self.task_pool.segments_transferred * self.descriptor.segment_size_blks,
            total,
        );
        RebuildStats {
            start_time_millis: self.descriptor.start_time_millis,
            is_partial: self.descriptor.rebuild_map is Some,
            blocks_total: total as u64,
            blocks_recovered: recovered as u64,
            blocks_transferred: transferred as u64,
            blocks_remaining: (match self.descriptor.rebuild_map {
                Some(m) => m.spec_count_dirty_blks(),
                None => total - recovered,
            }) as u64,
            progress: (if total == 0 {
                100int
            } else {
                recovered * 100 / total
            }) as u64,
            blocks_per_task: self.descriptor.segment_size_blks,
            block_size: self.descriptor.block_size,
            tasks_total: self.task_pool.total as u64,
            tasks_active: self.task_pool.active as u64,
        }
    }

    /// Collect statistics from the job.
    pub fn stats(&self) -> (r: RebuildStats)
        requires
            self.wf(),
        ensures
            r == self.spec_stats(),
            r.progress < 100 || r.blocks_remaining == 0,
            r.blocks_transferred <= r.blocks_recovered <= r.blocks_total,
    {
        let blocks_total = self.descriptor.range_end - self.descriptor.range_start;
        let ssb = self.descriptor.segment_size_blks;
        let done_blocks = self.task_pool.segments_done * ssb;
        // The segment grid may overshoot an unaligned range end; clamp.
        let blocks_recovered = if done_blocks <= blocks_total {
            done_blocks
        } else {
            blocks_total
        };
        proof {
            assert(self.task_pool.segments_transferred * ssb <= self.task_pool.segments_done
                * ssb) by (nonlinear_arith)
                requires
                    self.task_pool.segments_transferred <= self.task_pool.segments_done,
                    ssb >= 0,
            ;
        }
        let transferred_blocks = self.task_pool.segments_transferred * ssb;
        let blocks_transferred = if transferred_blocks <= blocks_total {
            transferred_blocks
        } else {
            blocks_total
        };
        let blocks_remaining = match &self.descriptor.rebuild_map {
            Some(m) => m.count_dirty_blks(),
            None => blocks_total - blocks_recovered,
        };
        proof {
            assert(blocks_recovered * 100 <= blocks_total * 100) by (nonlinear_arith)
                requires
                    blocks_recovered <= blocks_total,
            ;
            assert(blocks_total * 100 <= u64::MAX) by (nonlinear_arith)
                requires
                    blocks_total <= u64::MAX as int / 100,
            ;
        }
        let progress: u64 = if blocks_total == 0 {
            100
        } else {
            (blocks_recovered * 100) / blocks_total
        };
        proof {
            self.lemma_stats_progress(blocks_recovered, blocks_total, progress);
        }
        RebuildStats {
            start_time_millis: self.descriptor.start_time_millis,
            is_partial: self.descriptor.rebuild_map.is_some(),
            blocks_total,
            blocks_recovered,
            blocks_transferred,
            blocks_remaining,
            progress,
            blocks_per_task: ssb,
            block_size: self.descriptor.block_size,
            tasks_total: self.task_pool.total as u64,
            tasks_active: self.task_pool.active as u64,
        }
    }

    /// Full progress means nothing remains: when the recovered count
    /// reaches the total, the whole range was dispatched, so an installed
    /// map has been cleared segment by segment.
    proof fn lemma_stats_progress(self, blocks_recovered: u64, blocks_total: u64, progress: u64)
        requires
            self.wf(),
            blocks_total == self.descriptor.spec_blocks_total(),
            blocks_recovered == spec_min(
                self.task_pool.segments_done * self.descriptor.segment_size_blks,
                blocks_total as int,
            ),
            progress == (if blocks_total == 0 {
                100int
            } else {
                blocks_recovered * 100 as int / blocks_total as int
            }),
        ensures
            progress < 100 ==> blocks_recovered < blocks_total,
            progress >= 100 && self.descriptor.rebuild_map is Some ==> self.descriptor.rebuild_map->Some_0.spec_count_dirty_blks() == 0,
            progress >= 100 && self.descriptor.rebuild_map is None ==> blocks_recovered
                == blocks_total,
    {
        if blocks_total == 0 {
            assert(blocks_recovered == 0);
        } else {
            assert(progress >= 100 ==> blocks_recovered * 100 >= blocks_total * 100)
                by (nonlinear_arith)
                requires
                    blocks_total > 0,
                    progress == blocks_recovered * 100 as int / blocks_total as int,
            ;
            assert(progress < 100 ==> blocks_recovered * 100 < blocks_total * 100)
                by (nonlinear_arith)
                requires
                    blocks_total > 0,
                    progress == blocks_recovered * 100 as int / blocks_total as int,
            ;
            assert(blocks_recovered * 100 >= blocks_total * 100 ==> blocks_recovered
                >= blocks_total) by (nonlinear_arith);
            assert(blocks_recovered * 100 < blocks_total * 100 ==> blocks_recovered
                < blocks_total) by (nonlinear_arith);
        }
        if progress >= 100 {
            // The whole range was dispatched: the cursor reached the end.
            assert(self.task_pool.segments_done * self.descriptor.segment_size_blks
                >= blocks_total);
            assert(self.next >= self.descriptor.range_end);
            match self.descriptor.rebuild_map {
                Some(m) => {
                    assert forall|s: int| 0 <= s < m.dirty.len() implies !(
                    #[trigger] m.dirty[s]) by {
                        if m.dirty[s] {
                            assert(m.spec_dirty(s));
                            assert(self.next <= s * m.segment_size_blks
                                && s * m.segment_size_blks < self.descriptor.range_end);
                        }
                    }
                    m.lemma_clean_map_has_no_dirty_blocks();
                },
                None => {},
            }
        }
    }

    /// Answer a statistics query on the reply queue.
    fn reply_stats(&mut self)
        requires
            old(self).wf(),
        ensures
            *final(self) == (Self {
                stats_replies: final(self).stats_replies,
                ..*old(self)
            }),
            final(self).stats_replies@ == old(self).stats_replies@.push(old(self).spec_stats()),
    {
        let s = self.stats();
        self.stats_replies.push(s);
    }

    /// An installable map fits this job: sound in itself, on the same
    /// segment grid, covering the range, with dirty segments only in the
    /// unprocessed part.
    pub open spec fn spec_map_compatible(self, m: RebuildMap) -> bool {
        &&& m.wf()
        &&& m.segment_size_blks == self.descriptor.segment_size_blks
        &&& m.num_blocks >= self.descriptor.range_end
        &&& self.descriptor.range_start % self.descriptor.segment_size_blks == 0
        &&& forall|s: int|
            0 <= s < m.dirty.len() && #[trigger] m.spec_dirty(s) ==> self.next <= s
                * m.segment_size_blks && s * m.segment_size_blks < self.descriptor.range_end
    }

    /// Sets the rebuild map for this job: installed once, and only when
    /// it fits the job's grid and range; ignored otherwise, as when a map
    /// is already set.
    pub fn set_rebuild_map(&mut self, map: RebuildMap) -> (r: bool)
        requires
            old(self).wf(),
        ensures
            final(self).wf(),
            old(self).same_frame(*final(self)),
            r ==> old(self).descriptor.rebuild_map is None && old(self).spec_map_compatible(map)
                && *final(self) == (Self {
                descriptor: (RebuildDescriptor {
                    rebuild_map: Some(map),
                    ..old(self).descriptor
                }),
                ..*old(self)
            }),
            !r ==> *final(self) == *old(self) && (old(self).descriptor.rebuild_map is Some || !old(self).spec_map_compatible(map)),
    {
        if self.descriptor.rebuild_map.is_some() {
            // A rebuild map is already set; keep it.
            return false;
        }
        if !self.map_compatible(&map) {
            return false;
        }
        self.descriptor.rebuild_map = Some(map);
        true
    }

    /// Check a map against this job's grid and progress.
    fn map_compatible(&self, m: &RebuildMap) -> (r: bool)
        requires
            self.wf(),
        ensures
            r == self.spec_map_compatible(*m),
    {
        let ssb = self.descriptor.segment_size_blks;
        if !(m.segment_size_blks == ssb && m.num_blocks >= self.descriptor.range_end
            && self.descriptor.range_start % ssb == 0) {
            return false;
        }
        // The map's own shape.
        if !(m.num_blocks <= u64::MAX - m.segment_size_blks) {
            return false;
        }
        let whole = m.num_blocks / ssb;
        let segs: u64 = if m.num_blocks % ssb == 0 {
            whole
        } else {
            whole + 1
        };
        if !(m.dirty.len() as u64 == segs) {
            return false;
        }
        // Dirty segments must lie in the unprocessed part of the range.
        let n = m.dirty.len();
        let mut s: usize = 0;
        while s < n
            invariant
                self.wf(),
                n == m.dirty.len(),
                s <= n,
                m.wf(),
                m.segment_size_blks == self.descriptor.segment_size_blks,
                m.num_blocks >= self.descriptor.range_end,
                forall|j: int|
                    0 <= j < s && #[trigger] m.spec_dirty(j) ==> self.next <= j
                        * m.segment_size_blks && j * m.segment_size_blks
                        < self.descriptor.range_end,
            decreases n - s,
        {
            if m.dirty[s] {
                proof {
                    assert((s as int) * (m.segment_size_blks as int) < m.num_blocks)
                        by (nonlinear_arith)
                        requires
                            0 <= s < m.dirty.len(),
                            m.segment_size_blks > 0,
                            m.dirty.len() == crate::iolog::spec_num_segments(
                                m.num_blocks as int,
                                m.segment_size_blks as int,
                            ),
                            crate::iolog::spec_num_segments(
                                m.num_blocks as int,
                                m.segment_size_blks as int,
                            ) == if m.num_blocks as int % m.segment_size_blks as int == 0 {
                                m.num_blocks as int / m.segment_size_blks as int
                            } else {
                                m.num_blocks as int / m.segment_size_blks as int + 1
                            },
                    ;
                }
                let seg_blk = (s as u64) * m.segment_size_blks;
                proof {
                    assert(m.spec_dirty(s as int));
                }
                if !(self.next <= seg_blk && seg_blk < self.descriptor.range_end) {
                    return false;
                }
            }
            s += 1;
        }
        true
    }

    /// Record a state-change notification for the listeners.
    fn send_notify(&mut self)
        ensures
            *final(self) == (Self { notifications: final(self).notifications, ..*old(self) }),
            final(self).notifications@ == old(self).notifications@.push(
                old(self).states.current,
            ),
    {
        let s = self.states.current;
        self.notifications.push(s);
    }

    /// Reconciles the pending state into the current one, notifying the
    /// listeners of a change; returns the current state.
    pub fn reconcile(&mut self) -> (r: RebuildState)
        requires
            old(self).wf(),
        ensures
            final(self).wf(),
            old(self).same_frame(*final(self)),
            r == final(self).states.current,
            final(self).states.pending is None,
            final(self).states.error == old(self).states.error,
            old(self).states.pending matches Some(p) ==> final(self).states.current == p,
            old(self).states.pending is None ==> final(self).states.current == old(self).states.current,
            final(self).next == old(self).next,
            final(self).task_pool == old(self).task_pool,
            final(self).dst_store == old(self).dst_store,
            final(self).descriptor == old(self).descriptor,
            final(self).requests == old(self).requests,
            final(self).stats_replies == old(self).stats_replies,
            old(self).states.pending is Some && old(self).states.pending->Some_0 != old(self).states.current ==> final(self).notifications@ == old(self).notifications@.push(
                old(self).states.pending->Some_0,
            ),
            (old(self).states.pending is None || old(self).states.pending == Some(
                old(self).states.current,
            )) ==> final(self).notifications == old(self).notifications,
    {
        let old_state = self.states.current;
        let new_state = self.states.reconcile();
        if !(old_state == new_state) {
            self.send_notify();
        }
        new_state
    }

    /// Fails the job: an internal operation that overrides any pending
    /// client request.
    fn fail(&mut self)
        requires
            old(self).wf(),
        ensures
            final(self).wf(),
            old(self).states.current.spec_done() ==> *final(self) == *old(self),
            !old(self).states.current.spec_done() ==> *final(self) == (Self {
                states: (RebuildStates {
                    pending: Some(RebuildState::Failed),
                    ..old(self).states
                }),
                ..*old(self)
            }),
    {
        let _ = self.states.exec_op(RebuildOperation::Fail, true);
    }

    /// Fails the job and records the error, which stays visible on stats
    /// queries until the job is removed.
    fn fail_with(&mut self, error: RebuildError)
        requires
            old(self).wf(),
        ensures
            final(self).wf(),
            final(self).states.error == Some(error),
            final(self).states.current == old(self).states.current,
            old(self).states.current.spec_done() ==> final(self).states.pending == old(self).states.pending,
            !old(self).states.current.spec_done() ==> final(self).states.pending == Some(
                RebuildState::Failed,
            ),
            *final(self) == (Self { states: final(self).states, ..*old(self) }),
    {
        self.fail();
        self.states.error = Some(error);
    }

    /// Completes the job: an internal operation that overrides any
    /// pending client request.  Only called once the cursor has passed
    /// the end of the range.
    fn complete(&mut self)
        requires
            old(self).wf(),
            old(self).next >= old(self).descriptor.range_end,
        ensures
            final(self).wf(),
            old(self).states.current.spec_done() ==> *final(self) == *old(self),
            !old(self).states.current.spec_done() ==> *final(self) == (Self {
                states: (RebuildStates {
                    pending: Some(RebuildState::Completed),
                    ..old(self).states
                }),
                ..*old(self)
            }),
    {
        let _ = self.states.exec_op(RebuildOperation::Complete, true);
    }

    /// Copy one segment at the dispatch cursor — or skip it when an
    /// installed map says it is clean — post the task's result, and
    /// return the next cursor position; `None` when the range is
    /// exhausted.
    fn send_segment_task(&mut self, id: usize) -> (r: Option<u64>)
        requires
            old(self).wf(),
            old(self).task_pool.active < old(self).task_pool.total,
        ensures
            old(self).same_frame(*final(self)),
            final(self).states == old(self).states,
            final(self).requests == old(self).requests,
            final(self).stats_replies == old(self).stats_replies,
            final(self).notifications == old(self).notifications,
            final(self).next == old(self).next,
            old(self).next >= old(self).descriptor.range_end ==> r is None && *final(self) == *old(self),
            old(self).next < old(self).descriptor.range_end ==> {
                &&& r == Some(old(self).spec_next_cursor() as u64)
                &&& final(self).task_pool.total == old(self).task_pool.total
                &&& final(self).task_pool.active == old(self).task_pool.active + 1
                &&& final(self).task_pool.segments_done == old(self).task_pool.segments_done + 1
                &&& final(self).task_pool.segments_transferred == old(self).task_pool.segments_transferred + (
                if old(self).spec_block_selected(old(self).next as int) {
                    1int
                } else {
                    0int
                })
                &&& final(self).task_pool.results@ == old(self).task_pool.results@.push(
                    (TaskResult { id: id, blk: old(self).next, error: None }),
                )
                &&& final(self).task_pool.wf()
                &&& final(self).results_clean()
                // Data: exactly the selected segment's bytes take the
                // source's values; everything else is untouched.
                &&& (old(self).spec_block_selected(old(self).next as int) ==> forall|i: int|
                    old(self).next * old(self).descriptor.block_size <= i < old(self).spec_next_cursor() * old(self).descriptor.block_size ==> final(self).dst_store.data@[i] == old(self).src_store.data@[i])
                &&& (!old(self).spec_block_selected(old(self).next as int) ==> final(self).dst_store == old(self).dst_store)
                &&& (forall|i: int|
                    0 <= i < old(self).dst_store.data@.len() && !(old(self).next * old(self).descriptor.block_size <= i < old(self).spec_next_cursor() * old(self).descriptor.block_size) ==> final(self).dst_store.data@[i] == old(self).dst_store.data@[i])
                // Map: the segment just attempted is now clean; dirty
                // segments keep to the unprocessed part.
                &&& (old(self).descriptor.rebuild_map is None ==> final(self).descriptor.rebuild_map is None)
                &&& (old(self).descriptor.rebuild_map matches Some(m0) ==> (final(self).descriptor.rebuild_map matches Some(m) && m.device_name == m0.device_name
                    && m.num_blocks == m0.num_blocks && m.segment_size_blks
                    == m0.segment_size_blks && m.dirty@.len() == m0.dirty@.len() && forall|s: int|
                    0 <= s < m.dirty@.len() ==> m.dirty@[s] == (m0.dirty@[s] && s
                        * m0.segment_size_blks >= old(self).spec_next_cursor())))
            },
    {
        if self.next >= self.descriptor.range_end {
            return None;
        }
        let blk = self.next;
        let ssb = self.descriptor.segment_size_blks;
        let next = if blk + ssb <= self.descriptor.range_end {
            blk + ssb
        } else {
            self.descriptor.range_end
        };
        let count = next - blk;
        proof {
            self.lemma_cursor_aligned();
        }
        proof {
            self.lemma_counters_bounded(*old(self));
        }
        let selected = match &self.descriptor.rebuild_map {
            Some(m) => !m.is_blk_clean(blk),
            None => true,
        };
        if selected {
            copy_blocks(&self.src_store, &mut self.dst_store, blk, count);
            match &mut self.descriptor.rebuild_map {
                Some(m) => {
                    m.blk_clean(blk);
                    proof {
                        self.lemma_cleared_segment(*old(self), blk as int, next as int);
                    }
                },
                None => {},
            }
            self.task_pool.segments_transferred = self.task_pool.segments_transferred + 1;
        } else {
            proof {
                self.lemma_skipped_segment(*old(self), blk as int, next as int);
            }
        }
        self.task_pool.segments_done = self.task_pool.segments_done + 1;
        self.task_pool.active = self.task_pool.active + 1;
        self.task_pool.results.push(TaskResult { id, blk, error: None });
        Some(next)
    }

    /// Where the cursor stands after dispatching the segment at `next`:
    /// one segment on, clamped to the end of the range.
    pub open spec fn spec_next_cursor(self) -> int {
        spec_min(
            self.next + self.descriptor.segment_size_blks,
            self.descriptor.range_end as int,
        )
    }

    /// Whether the copy grid selects the segment at block `b` for actual
    /// transfer: always, unless an installed map says it is clean.
    pub open spec fn spec_block_selected(self, b: int) -> bool {
        match self.descriptor.rebuild_map {
            None => true,
            Some(m) => m.spec_dirty(b / m.segment_size_blks as int),
        }
    }

    /// The segment counters stay far from overflow: the range bounds the
    /// number of attempted segments.
    proof fn lemma_counters_bounded(self, pre: Self)
        requires
            pre.wf(),
            self.task_pool.segments_done == pre.task_pool.segments_done,
            self.task_pool.segments_transferred == pre.task_pool.segments_transferred,
        ensures
            self.task_pool.segments_done < u64::MAX,
            self.task_pool.segments_transferred < u64::MAX,
    {
        let ss = pre.descriptor.segment_size_blks as int;
        let total = pre.descriptor.spec_blocks_total();
        let done = pre.task_pool.segments_done as int;
        assert(done <= total + 1) by (nonlinear_arith)
            requires
                done * ss <= total + ss,
                ss >= 1,
                done >= 0,
                total >= 0,
        ;
    }

    /// What one pass of rebuild work does to the data: the cursor only
    /// advances; bytes outside the window it crossed are untouched; a
    /// full rebuild leaves the window equal to the source; a partial
    /// rebuild leaves a window byte equal to the source exactly when the
    /// map as of `pre` marked its segment dirty, and untouched otherwise,
    /// clearing the dirty bits the cursor crossed.
    pub open spec fn rebuild_progressed(pre: Self, post: Self) -> bool {
        let bs = pre.descriptor.block_size as int;
        let ssb = pre.descriptor.segment_size_blks as int;
        &&& post.next >= pre.next
        &&& post.dst_store.data@.len() == pre.dst_store.data@.len()
        &&& (pre.descriptor.rebuild_map is Some ==> post.descriptor.rebuild_map is Some)
        &&& (forall|i: int|
            0 <= i < post.dst_store.data@.len() && !(pre.next * bs <= i < post.next * bs)
                ==> #[trigger] post.dst_store.data@[i] == pre.dst_store.data@[i])
        &&& (pre.descriptor.rebuild_map is None && post.descriptor.rebuild_map is None
            ==> forall|i: int|
            pre.next * bs <= i < post.next * bs ==> #[trigger] post.dst_store.data@[i]
                == post.src_store.data@[i])
        &&& (pre.descriptor.rebuild_map matches Some(m0) ==> (post.descriptor.rebuild_map
            matches Some(m) && m.device_name == m0.device_name && m.num_blocks == m0.num_blocks
            && m.segment_size_blks == m0.segment_size_blks && m.dirty@.len() == m0.dirty@.len()
            && post.task_pool.segments_transferred == pre.task_pool.segments_transferred + (
            spec_dirty_count(m0.dirty@) - spec_dirty_count(m.dirty@)) && (forall|s: int|
                0 <= s < m.dirty@.len() ==> #[trigger] m.dirty@[s] == (m0.dirty@[s] && s * ssb
                    >= post.next)) && (forall|i: int|
                pre.next * bs <= i < post.next * bs ==> #[trigger] post.dst_store.data@[i] == (
                if m0.spec_dirty((i / bs) / ssb) {
                    post.src_store.data@[i]
                } else {
                    pre.dst_store.data@[i]
                }))))
    }

    /// A pass that moved no data and left the cursor and the map alone
    /// made progress trivially.
    proof fn lemma_progressed_still(pre: Self, post: Self)
        requires
            pre.wf(),
            post.next == pre.next,
            post.dst_store.data@ == pre.dst_store.data@,
            post.src_store == pre.src_store,
            post.task_pool.segments_transferred == pre.task_pool.segments_transferred,
            pre.descriptor.rebuild_map is Some ==> post.descriptor.rebuild_map
                == pre.descriptor.rebuild_map,
            post.descriptor.block_size == pre.descriptor.block_size,
            post.descriptor.segment_size_blks == pre.descriptor.segment_size_blks,
        ensures
            Self::rebuild_progressed(pre, post),
    {
        let ssb = pre.descriptor.segment_size_blks as int;
        match pre.descriptor.rebuild_map {
            Some(m0) => {
                assert forall|s: int| 0 <= s < m0.dirty@.len() implies #[trigger] m0.dirty@[s] == (
                m0.dirty@[s] && s * ssb >= post.next) by {
                    if m0.dirty@[s] {
                        assert(m0.spec_dirty(s));
                        assert(pre.next <= s * m0.segment_size_blks);
                    }
                }
            },
            None => {},
        }
    }

    /// Two consecutive passes of rebuild work compose into one.
    proof fn lemma_progressed_trans(a: Self, b: Self, c: Self)
        requires
            b.wf(),
            c.wf(),
            a.same_frame(b),
            b.same_frame(c),
            Self::rebuild_progressed(a, b),
            Self::rebuild_progressed(b, c),
        ensures
            Self::rebuild_progressed(a, c),
    {
        let bs = a.descriptor.block_size as int;
        let ssb = a.descriptor.segment_size_blks as int;
        assert(a.next * bs <= b.next * bs && b.next * bs <= c.next * bs && 0 <= a.next * bs)
            by (nonlinear_arith)
            requires
                0 <= a.next <= b.next <= c.next,
                bs >= 0,
        ;
        crate::storage::lemma_block_offset_in_bounds(c.dst_store, c.next as int);
        assert(c.next * bs <= c.dst_store.data@.len());
        assert forall|i: int|
            0 <= i < c.dst_store.data@.len() && !(a.next * bs <= i < c.next * bs) implies
        #[trigger] c.dst_store.data@[i] == a.dst_store.data@[i] by {
            assert(c.dst_store.data@[i] == b.dst_store.data@[i]);
        }
        if a.descriptor.rebuild_map is None && c.descriptor.rebuild_map is None {
            assert(b.descriptor.rebuild_map is None);
            assert forall|i: int| a.next * bs <= i < c.next * bs implies
            #[trigger] c.dst_store.data@[i] == c.src_store.data@[i] by {
                if i < b.next * bs {
                    assert(b.dst_store.data@[i] == b.src_store.data@[i]);
                    assert(c.dst_store.data@[i] == b.dst_store.data@[i]);
                }
            }
        }
        if a.descriptor.rebuild_map is Some {
            let m0 = a.descriptor.rebuild_map->Some_0;
            let mb = b.descriptor.rebuild_map->Some_0;
            let mc = c.descriptor.rebuild_map->Some_0;
            assert forall|s: int| 0 <= s < mc.dirty@.len() implies #[trigger] mc.dirty@[s] == (
            m0.dirty@[s] && s * ssb >= c.next) by {
                assert(mc.dirty@[s] == (mb.dirty@[s] && s * ssb >= c.next));
                assert(mb.dirty@[s] == (m0.dirty@[s] && s * ssb >= b.next));
            }
            assert forall|i: int| a.next * bs <= i < c.next * bs implies
            #[trigger] c.dst_store.data@[i] == (if m0.spec_dirty((i / bs) / ssb) {
                c.src_store.data@[i]
            } else {
                a.dst_store.data@[i]
            }) by {
                let seg = (i / bs) / ssb;
                if i < b.next * bs {
                    // Work of the first pass, untouched by the second.
                    assert(b.dst_store.data@[i] == (if m0.spec_dirty(seg) {
                        b.src_store.data@[i]
                    } else {
                        a.dst_store.data@[i]
                    }));
                    assert(c.dst_store.data@[i] == b.dst_store.data@[i]);
                } else {
                    // Work of the second pass: the map it consulted holds
                    // the same bit for this byte's segment, because the
                    // segment lies at or past the first pass's cursor.
                    assert(b.next < c.next && b.next < b.descriptor.range_end) by (nonlinear_arith)
                        requires
                            b.next * bs <= i < c.next * bs,
                            bs > 0,
                            b.next <= c.next <= b.descriptor.range_end,
                    ;
                    b.lemma_cursor_aligned();
                    lemma_grid_at_or_past(i, b.next as int, bs, ssb);
                    assert(i < b.descriptor.range_end * bs) by (nonlinear_arith)
                        requires
                            i < c.next * bs,
                            c.next <= b.descriptor.range_end,
                            bs >= 0,
                    ;
                    assert(mb.dirty@[seg] == (m0.dirty@[seg] && seg * ssb >= b.next)) by {
                        b.lemma_cursor_in_map(i);
                    }
                    assert(mb.spec_dirty(seg) == m0.spec_dirty(seg));
                    assert(c.dst_store.data@[i] == (if mb.spec_dirty(seg) {
                        c.src_store.data@[i]
                    } else {
                        b.dst_store.data@[i]
                    }));
                    if !m0.spec_dirty(seg) {
                        assert(b.dst_store.data@[i] == a.dst_store.data@[i]);
                    }
                }
            }
        }
    }

    /// A byte the next pass may touch maps to a segment of the installed
    /// map.
    proof fn lemma_cursor_in_map(self, i: int)
        requires
            self.wf(),
            self.descriptor.rebuild_map is Some,
            0 <= i < self.descriptor.range_end * self.descriptor.block_size,
        ensures
            0 <= (i / self.descriptor.block_size as int) / (
            self.descriptor.segment_size_blks as int),
            ((i / self.descriptor.block_size as int) / (self.descriptor.segment_size_blks as int))
                < self.descriptor.rebuild_map->Some_0.dirty@.len(),
    {
        let bs = self.descriptor.block_size as int;
        let ssb = self.descriptor.segment_size_blks as int;
        let m = self.descriptor.rebuild_map->Some_0;
        lemma_byte_block(i, 0, self.descriptor.range_end as int, bs);
        let q = i / bs;
        assert(q < m.num_blocks);
        vstd::arithmetic::div_mod::lemma_div_pos_is_pos(q, ssb);
        assert((q / ssb) < m.dirty@.len()) by (nonlinear_arith)
            requires
                0 <= q < m.num_blocks,
                ssb > 0,
                m.dirty@.len() == crate::iolog::spec_num_segments(m.num_blocks as int, ssb),
                crate::iolog::spec_num_segments(m.num_blocks as int, ssb) == if m.num_blocks
                    as int % ssb == 0 {
                    m.num_blocks as int / ssb
                } else {
                    m.num_blocks as int / ssb + 1
                },
        ;
    }

    /// With a map installed, the dispatch cursor sits on the segment
    /// grid while the range is not exhausted.
    proof fn lemma_cursor_aligned(self)
        requires
            self.wf(),
            self.next < self.descriptor.range_end,
        ensures
            self.descriptor.rebuild_map is Some ==> self.next % self.descriptor.segment_size_blks
                == 0,
    {
        if self.descriptor.rebuild_map is Some {
            let ss = self.descriptor.segment_size_blks as int;
            let start = self.descriptor.range_start as int;
            let done = self.task_pool.segments_done as int;
            assert(self.next == start + done * ss);
            vstd::arithmetic::div_mod::lemma_mod_multiples_vanish(done, start, ss);
            assert(ss * done + start == start + done * ss) by (nonlinear_arith);
            assert(self.next as int % ss == 0);
        }
    }

    /// After clearing the dirty bit of the segment at the cursor, every
    /// remaining dirty segment lies at or past the new cursor.
    proof fn lemma_cleared_segment(self, pre: Self, blk: int, nn: int)
        requires
            pre.wf(),
            pre.next == blk,
            blk < pre.descriptor.range_end,
            blk % pre.descriptor.segment_size_blks as int == 0,
            nn == spec_min(
                blk + pre.descriptor.segment_size_blks,
                pre.descriptor.range_end as int,
            ),
            pre.descriptor.rebuild_map matches Some(m0) && m0.spec_dirty(
                blk / m0.segment_size_blks as int,
            ),
            self.descriptor.rebuild_map matches Some(m) && m.device_name == pre.descriptor.rebuild_map->Some_0.device_name
                && m.num_blocks == pre.descriptor.rebuild_map->Some_0.num_blocks
                && m.segment_size_blks == pre.descriptor.rebuild_map->Some_0.segment_size_blks
                && m.dirty@ == pre.descriptor.rebuild_map->Some_0.dirty@.update(
                blk / pre.descriptor.rebuild_map->Some_0.segment_size_blks as int,
                false,
            ),
        ensures
            self.descriptor.rebuild_map matches Some(m) && forall|s: int|
                0 <= s < m.dirty@.len() ==> m.dirty@[s]
                    == (pre.descriptor.rebuild_map->Some_0.dirty@[s] && s * m.segment_size_blks
                    >= nn),
    {
        let m0 = pre.descriptor.rebuild_map->Some_0;
        let m = self.descriptor.rebuild_map->Some_0;
        let ssb = m0.segment_size_blks as int;
        let seg = blk / ssb;
        assert(blk < m0.num_blocks);
        assert(seg * ssb == blk) by (nonlinear_arith)
            requires
                blk % ssb == 0,
                ssb > 0,
                seg == blk / ssb,
        ;
        assert(0 <= seg < m0.dirty@.len()) by (nonlinear_arith)
            requires
                seg == blk / ssb,
                0 <= blk < m0.num_blocks,
                ssb > 0,
                m0.dirty@.len() == crate::iolog::spec_num_segments(m0.num_blocks as int, ssb),
                crate::iolog::spec_num_segments(m0.num_blocks as int, ssb) == if m0.num_blocks
                    as int % ssb == 0 {
                    m0.num_blocks as int / ssb
                } else {
                    m0.num_blocks as int / ssb + 1
                },
        ;
        assert forall|s: int| 0 <= s < m.dirty@.len() implies m.dirty@[s] == (m0.dirty@[s] && s
            * m.segment_size_blks >= nn) by {
            if s == seg {
                assert(!m.dirty@[s]);
                assert(seg * ssb == blk && blk < nn);
            } else {
                assert(m.dirty@[s] == m0.dirty@[s]);
                if m0.dirty@[s] {
                    assert(m0.spec_dirty(s));
                    // Dirty segments sat at or past the old cursor; this
                    // one is not the cursor's segment, so it sits at
                    // least one whole segment further.
                    assert(blk <= s * ssb);
                    assert(s * ssb != blk) by (nonlinear_arith)
                        requires
                            seg * ssb == blk,
                            s != seg,
                            ssb > 0,
                    ;
                    assert(s * ssb >= blk + ssb) by (nonlinear_arith)
                        requires
                            s * ssb > blk,
                            seg * ssb == blk,
                            s != seg,
                            ssb > 0,
                    ;
                    assert(s * ssb >= nn);
                }
            }
        }
    }

    /// A clean-skipped segment leaves the map as it was, and every dirty
    /// segment already lay past the new cursor.
    proof fn lemma_skipped_segment(self, pre: Self, blk: int, nn: int)
        requires
            pre.wf(),
            pre.next == blk,
            blk < pre.descriptor.range_end,
            blk % pre.descriptor.segment_size_blks as int == 0,
            nn == spec_min(
                blk + pre.descriptor.segment_size_blks,
                pre.descriptor.range_end as int,
            ),
            pre.descriptor.rebuild_map matches Some(m0) && !m0.spec_dirty(
                blk / m0.segment_size_blks as int,
            ),
            self.descriptor.rebuild_map == pre.descriptor.rebuild_map,
        ensures
            self.descriptor.rebuild_map matches Some(m) && forall|s: int|
                0 <= s < m.dirty@.len() ==> m.dirty@[s]
                    == (pre.descriptor.rebuild_map->Some_0.dirty@[s] && s * m.segment_size_blks
                    >= nn),
    {
        let m0 = pre.descriptor.rebuild_map->Some_0;
        let ssb = m0.segment_size_blks as int;
        let seg = blk / ssb;
        assert(seg * ssb == blk) by (nonlinear_arith)
            requires
                blk % ssb == 0,
                ssb > 0,
                seg == blk / ssb,
        ;
        assert forall|s: int| 0 <= s < m0.dirty@.len() implies m0.dirty@[s] == (m0.dirty@[s] && s
            * ssb >= nn) by {
            if m0.dirty@[s] {
                assert(m0.spec_dirty(s));
                assert(blk <= s * ssb);
                assert(s != seg);
                assert(s * ssb != blk) by (nonlinear_arith)
                    requires
                        seg * ssb == blk,
                        s != seg,
                        ssb > 0,
                ;
                assert(s * ssb >= blk + ssb) by (nonlinear_arith)
                    requires
                        s * ssb > blk,
                        seg * ssb == blk,
                        s != seg,
                        ssb > 0,
                ;
                assert(s * ssb >= nn);
            }
        }
    }

    /// Tries to kick off a task by its identifier; returns whether a
    /// segment was dispatched.  When the range is exhausted and no task
    /// is in flight, the job is completed.
    fn start_task_by_id(&mut self, id: usize) -> (r: bool)
        requires
            old(self).wf(),
            old(self).task_pool.active < old(self).task_pool.total,
        ensures
            final(self).wf(),
            old(self).same_frame(*final(self)),
            final(self).requests == old(self).requests,
            final(self).stats_replies == old(self).stats_replies,
            final(self).notifications == old(self).notifications,
            final(self).states.current == old(self).states.current,
            final(self).states.error == old(self).states.error,
            final(self).task_pool.segments_done >= old(self).task_pool.segments_done,
            r ==> old(self).next < old(self).descriptor.range_end && final(self).task_pool.active
                == old(self).task_pool.active + 1 && final(self).states == old(self).states
                && final(self).next == spec_min(
                old(self).next + old(self).descriptor.segment_size_blks,
                old(self).descriptor.range_end as int,
            ) && final(self).next > old(self).next && final(self).task_pool.segments_done == old(
                self,
            ).task_pool.segments_done + 1,
            !r ==> old(self).next >= old(self).descriptor.range_end && final(self).next == old(self).next && final(self).task_pool == old(self).task_pool && final(self).dst_store == old(self).dst_store && final(self).descriptor == old(self).descriptor,
            !r && old(self).task_pool.active > 0 ==> final(self).states == old(self).states,
            !r && old(self).task_pool.active == 0 ==> (final(self).states.pending == Some(
                RebuildState::Completed,
            ) || (old(self).states.current.spec_done() && final(self).states == old(self).states)),
            final(self).states.pending == old(self).states.pending || final(self).states.pending
                == Some(RebuildState::Completed),
            Self::rebuild_progressed(*old(self), *final(self)),
    {
        match self.send_segment_task(id) {
            Some(next) => {
                self.next = next;
                proof {
                    let ss = self.descriptor.segment_size_blks as int;
                    let start = self.descriptor.range_start as int;
                    let end = self.descriptor.range_end as int;
                    let done = self.task_pool.segments_done as int;
                    let prev_next = old(self).next as int;
                    let cur_next = self.next as int;
                    assert(cur_next == spec_min(start + done * ss, end) && done * ss <= end
                        - start + ss) by (nonlinear_arith)
                        requires
                            ss > 0,
                            start <= end,
                            cur_next == spec_min(prev_next + ss, end),
                            prev_next == spec_min(start + (done - 1) * ss, end),
                            (done - 1) * ss <= end - start + ss,
                            prev_next < end,
                            done >= 1,
                    ;
                    if self.descriptor.rebuild_map is Some {
                        let m = self.descriptor.rebuild_map->Some_0;
                        let m0 = old(self).descriptor.rebuild_map->Some_0;
                        assert forall|s2: int|
                            0 <= s2 < m.dirty.len() && #[trigger] m.spec_dirty(s2) implies
                        self.next <= s2 * m.segment_size_blks && s2 * m.segment_size_blks
                            < self.descriptor.range_end by {
                            assert(m.dirty@[s2] == (m0.dirty@[s2] && s2 * m0.segment_size_blks
                                >= old(self).spec_next_cursor()));
                            assert(m0.spec_dirty(s2));
                        }
                    }
                    self.lemma_dispatch_progressed(*old(self));
                }
                true
            },
            None => {
                if self.task_pool.active == 0 {
                    self.complete();
                }
                proof {
                    Self::lemma_progressed_still(*old(self), *self);
                }
                false
            },
        }
    }

    /// One dispatched segment is one pass of rebuild work: the segment's
    /// bytes follow its selection by the map as of `pre`, and nothing
    /// else moved.
    proof fn lemma_dispatch_progressed(self, pre: Self)
        requires
            pre.wf(),
            pre.next < pre.descriptor.range_end,
            self.next == pre.spec_next_cursor(),
            pre.same_frame(self),
            self.descriptor.range_start == pre.descriptor.range_start,
            self.descriptor.range_end == pre.descriptor.range_end,
            self.dst_store.data@.len() == pre.dst_store.data@.len(),
            pre.spec_block_selected(pre.next as int) ==> forall|i: int|
                pre.next * pre.descriptor.block_size <= i < pre.spec_next_cursor()
                    * pre.descriptor.block_size ==> #[trigger] self.dst_store.data@[i]
                    == pre.src_store.data@[i],
            !pre.spec_block_selected(pre.next as int) ==> self.dst_store == pre.dst_store,
            forall|i: int|
                0 <= i < pre.dst_store.data@.len() && !(pre.next * pre.descriptor.block_size <= i
                    < pre.spec_next_cursor() * pre.descriptor.block_size)
                    ==> #[trigger] self.dst_store.data@[i] == pre.dst_store.data@[i],
            self.task_pool.segments_transferred == pre.task_pool.segments_transferred + (
            if pre.spec_block_selected(pre.next as int) {
                1int
            } else {
                0int
            }),
            pre.descriptor.rebuild_map is None ==> self.descriptor.rebuild_map is None,
            pre.descriptor.rebuild_map matches Some(m0) ==> (self.descriptor.rebuild_map
                matches Some(m) && m.device_name == m0.device_name && m.num_blocks
                == m0.num_blocks && m.segment_size_blks == m0.segment_size_blks && m.dirty@.len()
                == m0.dirty@.len() && forall|s: int|
                0 <= s < m.dirty@.len() ==> #[trigger] m.dirty@[s] == (m0.dirty@[s] && s
                    * m0.segment_size_blks >= pre.spec_next_cursor())),
        ensures
            Self::rebuild_progressed(pre, self),
    {
        let bs = pre.descriptor.block_size as int;
        let ssb = pre.descriptor.segment_size_blks as int;
        let blk = pre.next as int;
        match pre.descriptor.rebuild_map {
            Some(m0) => {
                pre.lemma_cursor_aligned();
                let m = self.descriptor.rebuild_map->Some_0;
                let seg = blk / ssb;
                assert(seg * ssb == blk) by (nonlinear_arith)
                    requires
                        blk % ssb == 0,
                        ssb > 0,
                        seg == blk / ssb,
                ;
                assert(0 <= seg < m0.dirty@.len()) by (nonlinear_arith)
                    requires
                        seg == blk / ssb,
                        0 <= blk < m0.num_blocks,
                        ssb > 0,
                        m0.dirty@.len() == crate::iolog::spec_num_segments(
                            m0.num_blocks as int,
                            ssb,
                        ),
                        crate::iolog::spec_num_segments(m0.num_blocks as int, ssb)
                            == if m0.num_blocks as int % ssb == 0 {
                            m0.num_blocks as int / ssb
                        } else {
                            m0.num_blocks as int / ssb + 1
                        },
                ;
                // Every other dirty segment sits a whole segment past the
                // cursor, so only the cursor's own flag can change.
                assert forall|s: int| 0 <= s < m0.dirty@.len() && s != seg implies
                #[trigger] m.dirty@[s] == m0.dirty@[s] by {
                    if m0.dirty@[s] {
                        assert(m0.spec_dirty(s));
                        assert(blk <= s * ssb);
                        assert(s * ssb != blk) by (nonlinear_arith)
                            requires
                                seg * ssb == blk,
                                s != seg,
                                ssb > 0,
                        ;
                        assert(s * ssb >= blk + ssb) by (nonlinear_arith)
                            requires
                                s * ssb > blk,
                                seg * ssb == blk,
                                s != seg,
                                ssb > 0,
                        ;
                        assert(s * ssb >= pre.spec_next_cursor());
                    }
                }
                if m0.spec_dirty(seg) {
                    assert(!m.dirty@[seg]) by {
                        assert(seg * ssb == blk && blk < pre.spec_next_cursor());
                    }
                    assert(m.dirty@ =~= m0.dirty@.update(seg, false));
                    lemma_dirty_count_clear(m0.dirty@, m.dirty@, seg);
                } else {
                    assert(m.dirty@ =~= m0.dirty@);
                }
                assert forall|i: int| pre.next * bs <= i < self.next * bs implies
                #[trigger] self.dst_store.data@[i] == (if m0.spec_dirty((i / bs) / ssb) {
                    self.src_store.data@[i]
                } else {
                    pre.dst_store.data@[i]
                }) by {
                    lemma_byte_block(i, blk, self.next as int, bs);
                    lemma_block_in_segment(i / bs, blk, ssb);
                    assert((i / bs) / ssb == blk / ssb);
                    if m0.spec_dirty(blk / ssb) {
                        assert(pre.spec_block_selected(blk));
                    } else {
                        assert(!pre.spec_block_selected(blk));
                        assert(self.dst_store.data@[i] == pre.dst_store.data@[i]);
                    }
                }
            },
            None => {
                assert forall|i: int| pre.next * bs <= i < self.next * bs implies
                #[trigger] self.dst_store.data@[i] == self.src_store.data@[i] by {
                    assert(pre.spec_block_selected(blk));
                }
            },
        }
    }

    /// A dispatch count that covered the remainder, with the previous
    /// dispatch still short of it, is exactly the number of segments the
    /// remainder holds.
    proof fn lemma_ceil_exact(active: int, rem: int, s: int)
        requires
            s > 0,
            rem >= 0,
            active >= 0,
            active * s >= rem,
            active > 0 ==> (active - 1) * s < rem,
            active == 0 ==> rem == 0,
        ensures
            active == crate::iolog::spec_num_segments(rem, s),
    {
        vstd::arithmetic::div_mod::lemma_fundamental_div_mod(rem, s);
        vstd::arithmetic::div_mod::lemma_mod_bound(rem, s);
        let q = rem / s;
        let r = rem % s;
        if active > 0 {
            assert(active == if r == 0 {
                q
            } else {
                q + 1
            }) by (nonlinear_arith)
                requires
                    s > 0,
                    rem == s * q + r,
                    0 <= r < s,
                    active * s >= rem,
                    (active - 1) * s < rem,
                    q >= 0,
            ;
        }
    }

    /// A remainder still unreached after `total - 1` whole segments holds
    /// at least `total` segments.
    proof fn lemma_ceil_at_least(total: int, rem: int, s: int)
        requires
            s > 0,
            rem >= 0,
            total >= 1,
            (total - 1) * s < rem,
        ensures
            crate::iolog::spec_num_segments(rem, s) >= total,
    {
        vstd::arithmetic::div_mod::lemma_fundamental_div_mod(rem, s);
        vstd::arithmetic::div_mod::lemma_mod_bound(rem, s);
        let q = rem / s;
        let r = rem % s;
        assert((if r == 0 {
            q
        } else {
            q + 1
        }) >= total) by (nonlinear_arith)
            requires
                s > 0,
                rem == s * q + r,
                0 <= r < s,
                (total - 1) * s < rem,
        ;
    }

    /// Kicks off as many copy tasks as the pool and the remaining range
    /// allow.  If nothing is left to rebuild, the job is completed.
    fn start_all_tasks(&mut self)
        requires
            old(self).wf(),
            old(self).task_pool.active == 0,
        ensures
            final(self).wf(),
            old(self).same_frame(*final(self)),
            final(self).requests == old(self).requests,
            final(self).stats_replies == old(self).stats_replies,
            final(self).notifications == old(self).notifications,
            final(self).states.current == old(self).states.current,
            final(self).states.error == old(self).states.error,
            final(self).states.pending == old(self).states.pending || final(self).states.pending
                == Some(RebuildState::Completed),
            final(self).task_pool.segments_done >= old(self).task_pool.segments_done,
            old(self).next >= old(self).descriptor.range_end ==> final(self).task_pool == old(self).task_pool && final(self).dst_store == old(self).dst_store && final(self).descriptor
                == old(self).descriptor && final(self).next == old(self).next && (final(self).states.pending == Some(RebuildState::Completed) || (old(self).states.current.spec_done() && final(self).states == old(self).states)),
            final(self).task_pool.active == 0 ==> final(self).next >= final(self).descriptor.range_end && (final(self).states.pending == Some(RebuildState::Completed)
                || old(self).states.current.spec_done()),
            final(self).next == spec_min(
                old(self).next + final(self).task_pool.active * old(
                    self,
                ).descriptor.segment_size_blks,
                old(self).descriptor.range_end as int,
            ),
            final(self).task_pool.active as int == spec_min(
                old(self).task_pool.total as int,
                crate::iolog::spec_num_segments(
                    old(self).descriptor.range_end - old(self).next,
                    old(self).descriptor.segment_size_blks as int,
                ),
            ),
            Self::rebuild_progressed(*old(self), *final(self)),
    {
        proof {
            Self::lemma_progressed_still(*old(self), *old(self));
        }
        let total = self.task_pool.total;
        let mut n: usize = 0;
        let mut more = true;
        while more && n < total
            invariant
                self.wf(),
                Self::rebuild_progressed(*old(self), *self),
                old(self).same_frame(*self),
                self.requests == old(self).requests,
                self.stats_replies == old(self).stats_replies,
                self.notifications == old(self).notifications,
                self.states.current == old(self).states.current,
                self.states.error == old(self).states.error,
                self.states.pending == old(self).states.pending || self.states.pending == Some(
                    RebuildState::Completed,
                ),
                self.task_pool.segments_done >= old(self).task_pool.segments_done,
                total == self.task_pool.total,
                n <= total,
                self.task_pool.active <= n,
                more ==> self.task_pool.active == n,
                !more ==> self.next >= self.descriptor.range_end,
                self.next == spec_min(
                    old(self).next + self.task_pool.active * old(
                        self,
                    ).descriptor.segment_size_blks,
                    old(self).descriptor.range_end as int,
                ),
                self.task_pool.active > 0 ==> old(self).next + (self.task_pool.active - 1) * old(
                    self,
                ).descriptor.segment_size_blks < old(self).descriptor.range_end,
                old(self).next >= old(self).descriptor.range_end ==> self.task_pool == old(self).task_pool && self.dst_store == old(self).dst_store && self.descriptor == old(self).descriptor && self.next == old(self).next,
            decreases total - n,
        {
            let ghost top = *self;
            let r = self.start_task_by_id(n);
            proof {
                Self::lemma_progressed_trans(*old(self), top, *self);
                if r {
                    let ssb = old(self).descriptor.segment_size_blks as int;
                    assert((top.task_pool.active + 1) * ssb == top.task_pool.active * ssb + ssb)
                        by (nonlinear_arith);
                }
            }
            more = r;
            n += 1;
        }
        proof {
            let ssb = old(self).descriptor.segment_size_blks as int;
            let rem = old(self).descriptor.range_end - old(self).next;
            let active = self.task_pool.active as int;
            if more {
                // Every slot took a segment, and the last one still left
                // the cursor short of the end at dispatch time.
                Self::lemma_ceil_at_least(total as int, rem, ssb);
            } else {
                // The range ran out: the cursor covered the remainder.
                assert(active * ssb >= rem);
                Self::lemma_ceil_exact(active, rem, ssb);
            }
        }
        // Nothing to rebuild, in case we paused but the rebuild is
        // complete.
        if self.task_pool.active == 0 {
            self.complete();
        }
    }

    /// Collect one task result.
    fn await_one_task(&mut self) -> (r: TaskResult)
        requires
            old(self).wf(),
            old(self).task_pool.active > 0,
        ensures
            final(self).wf(),
            old(self).same_frame(*final(self)),
            r == old(self).task_pool.results@[0],
            r.error is None,
            *final(self) == (Self { task_pool: final(self).task_pool, ..*old(self) }),
            final(self).task_pool.active == old(self).task_pool.active - 1,
            final(self).task_pool.total == old(self).task_pool.total,
            final(self).task_pool.segments_done == old(self).task_pool.segments_done,
            final(self).task_pool.segments_transferred == old(self).task_pool.segments_transferred,
    {
        let r = self.task_pool.await_one_task();
        proof {
            assert(old(self).task_pool.results@[0].error is None);
        }
        r
    }

    /// Awaits all active tasks: on pause or stop, no I/O may stay in
    /// flight.
    fn await_all_tasks(&mut self)
        requires
            old(self).wf(),
        ensures
            final(self).wf(),
            old(self).same_frame(*final(self)),
            final(self).task_pool.active == 0,
            final(self).task_pool.segments_done == old(self).task_pool.segments_done,
            final(self).task_pool.segments_transferred == old(self).task_pool.segments_transferred,
            *final(self) == (Self { task_pool: final(self).task_pool, ..*old(self) }),
    {
        while self.task_pool.active > 0
            invariant
                self.wf(),
                old(self).same_frame(*self),
                self.task_pool.segments_done == old(self).task_pool.segments_done,
                self.task_pool.segments_transferred == old(self).task_pool.segments_transferred,
                *self == (Self { task_pool: self.task_pool, ..*old(self) }),
            decreases self.task_pool.active,
        {
            let _ = self.await_one_task();
        }
    }

    /// Runs the management task that collects task results and kicks off
    /// further segments until the destination is fully rebuilt, draining
    /// in-flight tasks when a pending request or an error interrupts the
    /// copy.
    fn manage_tasks(&mut self)
        requires
            old(self).wf(),
        ensures
            final(self).wf(),
            old(self).same_frame(*final(self)),
            final(self).requests == old(self).requests,
            final(self).stats_replies == old(self).stats_replies,
            final(self).notifications == old(self).notifications,
            final(self).states.current == old(self).states.current,
            final(self).task_pool.active == 0,
            final(self).task_pool.segments_done >= old(self).task_pool.segments_done,
            final(self).states.pending == old(self).states.pending || final(self).states.pending
                == Some(RebuildState::Completed),
            final(self).states.error == old(self).states.error,
            (old(self).states.pending is None || old(self).states.pending == Some(
                RebuildState::Running,
            )) && old(self).task_pool.active > 0 && !old(self).states.current.spec_done()
                ==> final(self).states.pending == Some(RebuildState::Completed),
            old(self).states.pending matches Some(p) && p != RebuildState::Running ==> *final(self) == (Self { task_pool: final(self).task_pool, ..*old(self) }) && final(self).task_pool.segments_done == old(self).task_pool.segments_done && final(self).task_pool.segments_transferred == old(self).task_pool.segments_transferred && final(self).task_pool.total == old(self).task_pool.total,
            Self::rebuild_progressed(*old(self), *final(self)),
    {
        proof {
            Self::lemma_progressed_still(*old(self), *old(self));
        }
        while self.task_pool.active > 0
            invariant
                self.wf(),
                Self::rebuild_progressed(*old(self), *self),
                old(self).same_frame(*self),
                self.requests == old(self).requests,
                self.stats_replies == old(self).stats_replies,
                self.notifications == old(self).notifications,
                self.states.current == old(self).states.current,
                self.states.error == old(self).states.error,
                self.task_pool.segments_done >= old(self).task_pool.segments_done,
                self.states.pending == old(self).states.pending || self.states.pending == Some(
                    RebuildState::Completed,
                ),
                (old(self).states.pending is None || old(self).states.pending == Some(
                    RebuildState::Running,
                )) && old(self).task_pool.active > 0 && !old(self).states.current.spec_done()
                    ==> ((self.task_pool.active > 0 ==> self.states.pending == old(self).states.pending) && (self.task_pool.active == 0 ==> self.states.pending == Some(
                    RebuildState::Completed,
                ))),
                (old(self).states.pending matches Some(p) && p != RebuildState::Running) ==> *self
                    == (Self { task_pool: self.task_pool, ..*old(self) })
                    && self.task_pool.segments_done == old(self).task_pool.segments_done
                    && self.task_pool.segments_transferred == old(self).task_pool.segments_transferred && self.task_pool.total == old(self).task_pool.total,
            decreases self.descriptor.range_end as int - self.next as int, self.task_pool.active,
        {
            let ghost top = *self;
            let r = self.await_one_task();
            proof {
                Self::lemma_progressed_still(top, *self);
                Self::lemma_progressed_trans(*old(self), top, *self);
            }
            match r.error {
                None => {
                    let pending = self.states.pending;
                    match pending {
                        None | Some(RebuildState::Running) => {
                            let ghost mid = *self;
                            let _ = self.start_task_by_id(r.id);
                            proof {
                                Self::lemma_progressed_trans(*old(self), mid, *self);
                            }
                        },
                        _ => {
                            // A request interrupted the copy: drain all
                            // in-flight I/O before acting on it.
                            let ghost mid = *self;
                            self.await_all_tasks();
                            proof {
                                Self::lemma_progressed_still(mid, *self);
                                Self::lemma_progressed_trans(*old(self), mid, *self);
                            }
                        },
                    }
                },
                Some(e) => {
                    // A task failed: record the error, fail the job and
                    // drain the remaining tasks.
                    let ghost mid = *self;
                    self.fail_with(e);
                    self.await_all_tasks();
                    proof {
                        Self::lemma_progressed_still(mid, *self);
                        Self::lemma_progressed_trans(*old(self), mid, *self);
                    }
                },
            }
        }
    }

    /// Take the oldest frontend request off the channel.
    fn recv_request(&mut self) -> (r: Option<RebuildJobRequest>)
        ensures
            old(self).requests@.len() == 0 ==> r is None && *final(self) == *old(self),
            old(self).requests@.len() > 0 ==> r == Some(old(self).requests@[0]) && *final(self)
                == (Self { requests: final(self).requests, ..*old(self) }) && final(self).requests@ == old(self).requests@.skip(1),
    {
        if self.requests.len() == 0 {
            return None;
        }
        let r = self.requests.remove(0);
        proof {
            assert(self.requests@ =~= old(self).requests@.skip(1));
        }
        Some(r)
    }

    /// Handle one frontend request: wake up, answer a stats query,
    /// install a rebuild map, or record a client state operation for the
    /// reconciler.
    fn handle_request(&mut self, req: RebuildJobRequest)
        requires
            old(self).wf(),
        ensures
            final(self).wf(),
            old(self).same_frame(*final(self)),
            final(self).requests == old(self).requests,
            final(self).notifications == old(self).notifications,
            final(self).next == old(self).next,
            final(self).task_pool == old(self).task_pool,
            final(self).dst_store == old(self).dst_store,
            final(self).states.current == old(self).states.current,
            final(self).states.error == old(self).states.error,
            final(self).states.pending == old(self).states.pending || (req matches
                RebuildJobRequest::Op(op) && !op.spec_is_internal() && final(self).states.pending
                == Some(op.spec_target())),
            req is Op && !req->Op_0.spec_is_internal() && !old(self).states.current.spec_done()
                ==> final(self).states.pending == Some(req->Op_0.spec_target()),
            !(req is Op) ==> final(self).states == old(self).states,
            old(self).descriptor.rebuild_map is Some ==> final(self).descriptor.rebuild_map
                == old(self).descriptor.rebuild_map,
    {
        match req {
            RebuildJobRequest::WakeUp => {},
            RebuildJobRequest::GetStats => {
                self.reply_stats();
            },
            RebuildJobRequest::SetRebuildMap(map) => {
                let _ = self.set_rebuild_map(map);
            },
            RebuildJobRequest::Op(op) => {
                let _ = self.states.exec_op(op, false);
            },
        }
    }

    /// When the backend terminates in `Completed`, the whole range was
    /// recovered: the recovered count equals the total, and an installed
    /// rebuild map has no dirty blocks left.
    pub proof fn lemma_completed_recovers_all(self)
        requires
            self.wf(),
            self.states.current == RebuildState::Completed,
        ensures
            self.spec_stats().blocks_recovered == self.spec_stats().blocks_total,
            self.spec_stats().blocks_remaining == 0,
            self.descriptor.rebuild_map is None ==> self.spec_stats().blocks_transferred
                == self.spec_stats().blocks_total,
    {
        assert(self.next >= self.descriptor.range_end);
        assert(self.task_pool.segments_done * self.descriptor.segment_size_blks
            >= self.descriptor.spec_blocks_total());
        match self.descriptor.rebuild_map {
            Some(m) => {
                assert forall|s: int| 0 <= s < m.dirty.len() implies !(#[trigger] m.dirty[s]) by {
                    if m.dirty[s] {
                        assert(m.spec_dirty(s));
                        assert(self.next <= s * m.segment_size_blks && s * m.segment_size_blks
                            < self.descriptor.range_end);
                    }
                }
                m.lemma_clean_map_has_no_dirty_blocks();
            },
            None => {},
        }
    }

    /// Runs the management loop until the job reaches a terminal state.
    ///
    /// While not running, the backend blocks on the next frontend
    /// request; a drained channel means the frontend is gone, which
    /// fails the job.  While running, it answers the queued control
    /// messages, then dispatches and collects copy tasks until the range
    /// is exhausted or a request interrupts.
    ///
    /// A full rebuild that completes leaves the destination range equal
    /// to the source, byte for byte; a partial rebuild that completes
    /// has written exactly the segments its map marked dirty and left
    /// every other byte untouched.
    pub fn run(&mut self)
        requires
            old(self).wf(),
            old(self).task_pool.active == 0,
        ensures
            final(self).wf(),
            old(self).same_frame(*final(self)),
            final(self).states.current.spec_done(),
            final(self).task_pool.active == 0,
            final(self).task_pool.segments_done >= old(self).task_pool.segments_done,
            Self::rebuild_progressed(*old(self), *final(self)),
            final(self).states.current == RebuildState::Completed ==> final(self).next == final(self).descriptor.range_end,
            old(self).descriptor.rebuild_map is None && final(self).descriptor.rebuild_map
                is None && final(self).states.current == RebuildState::Completed ==> (forall|i: int|
                old(self).next * old(self).descriptor.block_size <= i < final(self).descriptor.range_end * old(self).descriptor.block_size ==> #[trigger] final(self).dst_store.data@[i] == final(self).src_store.data@[i]),
            old(self).descriptor.rebuild_map is Some && final(self).states.current
                == RebuildState::Completed ==> (forall|i: int|
                old(self).next * old(self).descriptor.block_size <= i < final(self).descriptor.range_end * old(self).descriptor.block_size ==> #[trigger] final(self).dst_store.data@[i] == (
                if old(self).descriptor.rebuild_map->Some_0.spec_dirty(
                    (i / old(self).descriptor.block_size as int) / (old(self).descriptor.segment_size_blks as int),
                ) {
                    final(self).src_store.data@[i]
                } else {
                    old(self).dst_store.data@[i]
                })),
            // A completed partial rebuild transferred exactly the segments
            // its entry map marked dirty.
            old(self).descriptor.rebuild_map is Some && final(self).states.current
                == RebuildState::Completed ==> final(self).task_pool.segments_transferred == old(self).task_pool.segments_transferred + spec_dirty_count(
                old(self).descriptor.rebuild_map->Some_0.dirty@,
            ),
            // Success is owed: a job that runs — or that a queued start or
            // resume makes run — completes, as long as no queued operation
            // pauses, stops or fails it.
            spec_only_start_ops(old(self).requests@) && (old(self).spec_entry_state()
                == RebuildState::Running || (!old(self).spec_entry_state().spec_done()
                && spec_has_start_request(old(self).requests@))) ==> final(self).states.current
                == RebuildState::Completed,
            // A queue without any operation request starves a job that is
            // not running: the frontend is gone, the job fails and the
            // error is recorded for later stats queries.
            spec_no_op_requests(old(self).requests@) && old(self).spec_entry_state()
                != RebuildState::Running && !old(self).spec_entry_state().spec_done() ==> final(self).states.current == RebuildState::Failed && final(self).states.error == Some(
                RebuildError::FrontendGone,
            ),
    {
        proof {
            Self::lemma_progressed_still(*old(self), *old(self));
        }
        let ghost h_success = spec_only_start_ops(old(self).requests@) && (old(self).spec_entry_state() == RebuildState::Running || (!old(self).spec_entry_state().spec_done() && spec_has_start_request(old(self).requests@)));
        let ghost h_gone = spec_no_op_requests(old(self).requests@) && old(self).spec_entry_state() != RebuildState::Running && !old(self).spec_entry_state().spec_done();
        let ghost at_entry = *self;
        let mut s = self.reconcile();
        proof {
            Self::lemma_progressed_still(at_entry, *self);
            Self::lemma_progressed_trans(*old(self), at_entry, *self);
        }
        while !s.done()
            invariant
                self.wf(),
                Self::rebuild_progressed(*old(self), *self),
                old(self).same_frame(*self),
                s == self.states.current,
                self.states.pending is None,
                self.task_pool.active == 0,
                self.task_pool.segments_done >= old(self).task_pool.segments_done,
                h_success == (spec_only_start_ops(old(self).requests@) && (old(self).spec_entry_state() == RebuildState::Running || (!old(self).spec_entry_state().spec_done() && spec_has_start_request(
                    old(self).requests@,
                )))),
                h_gone == (spec_no_op_requests(old(self).requests@) && old(self).spec_entry_state() != RebuildState::Running && !old(self).spec_entry_state().spec_done()),
                h_success ==> spec_only_start_ops(self.requests@),
                h_success ==> (s == RebuildState::Running || spec_has_start_request(
                    self.requests@,
                ) || s == RebuildState::Completed),
                h_success ==> (s.spec_done() ==> s == RebuildState::Completed),
                h_gone ==> spec_no_op_requests(self.requests@),
                h_gone ==> (!s.spec_done() ==> s == old(self).spec_entry_state()
                    && self.states.error == old(self).states.error),
                h_gone ==> (s.spec_done() ==> s == RebuildState::Failed && self.states.error
                    == Some(RebuildError::FrontendGone)),
            decreases (if s.spec_done() {
                0int
            } else {
                1int
            }), self.requests@.len(),
        {
            let ghost req0 = self.requests@.len();
            let ghost top = *self;
            if !s.running() {
                match self.recv_request() {
                    Some(req) => {
                        let ghost greq = req;
                        proof {
                            Self::lemma_progressed_still(top, *self);
                            Self::lemma_progressed_trans(*old(self), top, *self);
                            lemma_queue_tail(top.requests@);
                            assert(top.requests@[0] == greq);
                        }
                        let ghost mid = *self;
                        self.handle_request(req);
                        proof {
                            Self::lemma_progressed_still(mid, *self);
                            Self::lemma_progressed_trans(*old(self), mid, *self);
                        }
                    },
                    None => {
                        // The frontend is gone; cancel the rebuild.
                        self.fail_with(RebuildError::FrontendGone);
                        proof {
                            Self::lemma_progressed_still(top, *self);
                            Self::lemma_progressed_trans(*old(self), top, *self);
                        }
                    },
                }
            } else {
                // Answer the control messages queued at this suspension
                // point.
                while self.requests.len() > 0
                    invariant
                        self.wf(),
                        Self::rebuild_progressed(*old(self), *self),
                        old(self).same_frame(*self),
                        self.states.current == s,
                        s == RebuildState::Running,
                        self.task_pool.active == 0,
                        self.task_pool.segments_done >= old(self).task_pool.segments_done,
                        req0 == 0 ==> self.states.pending is None,
                        self.requests@.len() <= req0,
                        h_success == (spec_only_start_ops(old(self).requests@) && (old(self).spec_entry_state() == RebuildState::Running || (!old(self).spec_entry_state().spec_done() && spec_has_start_request(
                            old(self).requests@,
                        )))),
                        h_success ==> spec_only_start_ops(self.requests@),
                        h_success ==> (self.states.pending is None || self.states.pending == Some(
                            RebuildState::Running,
                        )),
                    decreases self.requests@.len(),
                {
                    let ghost top2 = *self;
                    match self.recv_request() {
                        Some(req) => {
                            let ghost greq2 = req;
                            proof {
                                Self::lemma_progressed_still(top2, *self);
                                Self::lemma_progressed_trans(*old(self), top2, *self);
                                lemma_queue_tail(top2.requests@);
                                assert(top2.requests@[0] == greq2);
                            }
                            let ghost mid2 = *self;
                            self.handle_request(req);
                            proof {
                                Self::lemma_progressed_still(mid2, *self);
                                Self::lemma_progressed_trans(*old(self), mid2, *self);
                            }
                        },
                        None => {},
                    }
                }
                let ghost pending_after_drain = self.states.pending;
                let ghost before_copy = *self;
                self.start_all_tasks();
                proof {
                    Self::lemma_progressed_trans(*old(self), before_copy, *self);
                }
                let ghost before_manage = *self;
                self.manage_tasks();
                proof {
                    Self::lemma_progressed_trans(*old(self), before_manage, *self);
                    if h_success {
                        // With only benign requests drained, the copy phase
                        // always completes the job: either nothing was left
                        // to dispatch, or the pool ran the range down.
                        if before_manage.states.pending != Some(RebuildState::Completed) {
                            assert(before_manage.states.pending == pending_after_drain);
                            assert(before_manage.task_pool.active > 0);
                        }
                        assert(self.states.pending == Some(RebuildState::Completed));
                    }
                }
            }
            let ghost before_tail = *self;
            s = self.reconcile();
            proof {
                Self::lemma_progressed_still(before_tail, *self);
                Self::lemma_progressed_trans(*old(self), before_tail, *self);
            }
            proof {
                // Every pass either consumes a request or ends the job:
                // a running pass with an empty queue completes or fails,
                // and a blocked pass with an empty queue fails.
                assert(self.requests@.len() < req0 || s.spec_done());
            }
        }
        proof {
            if self.states.current == RebuildState::Completed {
                assert(self.next == self.descriptor.range_end);
                if old(self).descriptor.rebuild_map is Some {
                    // The whole range was dispatched, so the map was
                    // cleared segment by segment: nothing stays dirty.
                    let m = self.descriptor.rebuild_map->Some_0;
                    assert forall|k: int| 0 <= k < m.dirty@.len() implies !(
                    #[trigger] m.dirty@[k]) by {
                        if m.dirty@[k] {
                            assert(m.spec_dirty(k));
                        }
                    }
                    lemma_dirty_count_all_clean(m.dirty@);
                }
            }
        }
    }
}

} // verus!
