//! Write-intent logging for partial rebuilds.
//!
//! An `IOLog` is a bitmap over a child's block range, grouped into
//! segments.  While a child is out of the I/O path, the write path marks
//! the segments it touches; `finalize` hands the dirty set over as a
//! `RebuildMap`, which a later rebuild consults to skip clean segments.

use vstd::prelude::*;

verus! {

/// Size of one rebuild segment in bytes; also the granularity of the
/// dirty-log bitmap.
pub const SEGMENT_SIZE: u64 = 65536;

/// Number of segments needed to cover `num_blocks` blocks at
/// `segment_size_blks` blocks per segment.
pub open spec fn spec_num_segments(num_blocks: int, segment_size_blks: int) -> int
    recommends
        segment_size_blks > 0,
{
    if num_blocks % segment_size_blks == 0 {
        num_blocks / segment_size_blks
    } else {
        num_blocks / segment_size_blks + 1
    }
}

/// Number of set flags among the first `k`.
pub open spec fn spec_dirty_count_to(s: Seq<bool>, k: int) -> int
    decreases k,
{
    if k <= 0 {
        0
    } else {
        spec_dirty_count_to(s, k - 1) + if s[k - 1] {
            1int
        } else {
            0int
        }
    }
}

/// Number of set flags: how many segments a bitmap marks dirty.
pub open spec fn spec_dirty_count(s: Seq<bool>) -> int {
    spec_dirty_count_to(s, s.len() as int)
}

proof fn lemma_dirty_count_to_update(s: Seq<bool>, t: Seq<bool>, idx: int, k: int)
    requires
        0 <= idx < s.len(),
        s[idx],
        t == s.update(idx, false),
        0 <= k <= s.len(),
    ensures
        k <= idx ==> spec_dirty_count_to(t, k) == spec_dirty_count_to(s, k),
        k > idx ==> spec_dirty_count_to(t, k) == spec_dirty_count_to(s, k) - 1,
    decreases k,
{
    if k > 0 {
        lemma_dirty_count_to_update(s, t, idx, k - 1);
    }
}

/// Clearing one set flag lowers the count by exactly one.
pub proof fn lemma_dirty_count_clear(s: Seq<bool>, t: Seq<bool>, idx: int)
    requires
        0 <= idx < s.len(),
        s[idx],
        t == s.update(idx, false),
    ensures
        spec_dirty_count(t) == spec_dirty_count(s) - 1,
{
    lemma_dirty_count_to_update(s, t, idx, s.len() as int);
}

proof fn lemma_dirty_count_to_clean(s: Seq<bool>, k: int)
    requires
        forall|i: int| 0 <= i < s.len() ==> !(#[trigger] s[i]),
        0 <= k <= s.len(),
    ensures
        spec_dirty_count_to(s, k) == 0,
    decreases k,
{
    if k > 0 {
        lemma_dirty_count_to_clean(s, k - 1);
    }
}

/// A bitmap with no set flag counts zero.
pub proof fn lemma_dirty_count_all_clean(s: Seq<bool>)
    requires
        forall|i: int| 0 <= i < s.len() ==> !(#[trigger] s[i]),
    ensures
        spec_dirty_count(s) == 0,
{
    lemma_dirty_count_to_clean(s, s.len() as int);
}

/// A dirty-segment bitmap used to skip clean regions during a partial
/// rebuild.
#[derive(Debug)]
pub struct RebuildMap {
    /// Name of the block device this map describes.
    pub device_name: String,
    /// Number of blocks the map covers.
    pub num_blocks: u64,
    /// Blocks per segment.
    pub segment_size_blks: u64,
    /// One dirty flag per segment.
    pub dirty: Vec<bool>,
}

impl RebuildMap {
    /// The bitmap covers the block range exactly, and segment arithmetic
    /// stays within machine words.
    pub open spec fn wf(self) -> bool {
        &&& self.segment_size_blks > 0
        &&& self.dirty.len() == spec_num_segments(self.num_blocks as int, self.segment_size_blks as int)
        &&& self.num_blocks <= u64::MAX - self.segment_size_blks
    }

    /// Whether segment `i` is marked dirty.
    pub open spec fn spec_dirty(self, i: int) -> bool {
        self.dirty[i]
    }

    /// No segment is marked dirty.
    pub open spec fn all_clean(self) -> bool {
        forall|i: int| 0 <= i < self.dirty.len() ==> !(#[trigger] self.dirty[i])
    }

    /// Number of blocks covered by segment `i` (the last segment is
    /// clamped to the end of the device).
    pub open spec fn spec_seg_len(self, i: int) -> int {
        if (i + 1) * self.segment_size_blks <= self.num_blocks {
            self.segment_size_blks as int
        } else {
            self.num_blocks - i * self.segment_size_blks
        }
    }

    /// Total dirty blocks among the first `k` segments.
    pub open spec fn spec_count_dirty_to(self, k: int) -> int
        decreases k,
    {
        if k <= 0 {
            0
        } else {
            self.spec_count_dirty_to(k - 1) + if self.dirty[k - 1] {
                self.spec_seg_len(k - 1)
            } else {
                0
            }
        }
    }

    /// Total number of dirty blocks in the map.
    pub open spec fn spec_count_dirty_blks(self) -> int {
        self.spec_count_dirty_to(self.dirty.len() as int)
    }

    /// The first `k` segments hold at most `min(k * segment, num_blocks)`
    /// dirty blocks.
    proof fn lemma_count_dirty_bound(self, k: int)
        requires
            self.wf(),
            0 <= k <= self.dirty.len(),
        ensures
            0 <= self.spec_count_dirty_to(k),
            self.spec_count_dirty_to(k) <= k * self.segment_size_blks,
            self.spec_count_dirty_to(k) <= self.num_blocks,
        decreases k,
    {
        if k > 0 {
            self.lemma_count_dirty_bound(k - 1);
            assert(k <= spec_num_segments(self.num_blocks as int, self.segment_size_blks as int));
            assert((k - 1) * self.segment_size_blks < self.num_blocks) by (nonlinear_arith)
                requires
                    k - 1 < spec_num_segments(self.num_blocks as int, self.segment_size_blks as int),
                    self.segment_size_blks > 0,
                    spec_num_segments(self.num_blocks as int, self.segment_size_blks as int) == if self.num_blocks
                        as int % self.segment_size_blks as int == 0 {
                        self.num_blocks as int / self.segment_size_blks as int
                    } else {
                        self.num_blocks as int / self.segment_size_blks as int + 1
                    },
            ;
            assert((k - 1) * self.segment_size_blks + self.segment_size_blks == k
                * self.segment_size_blks) by (nonlinear_arith);
        }
    }

    /// All-clean maps hold no dirty blocks.
    proof fn lemma_all_clean_count_to(self, k: int)
        requires
            0 <= k <= self.dirty.len(),
            self.all_clean(),
        ensures
            self.spec_count_dirty_to(k) == 0,
        decreases k,
    {
        if k > 0 {
            self.lemma_all_clean_count_to(k - 1);
        }
    }

    /// A map with no dirty segment reports no blocks left to rebuild.
    pub proof fn lemma_clean_map_has_no_dirty_blocks(self)
        requires
            self.all_clean(),
        ensures
            self.spec_count_dirty_blks() == 0,
    {
        self.lemma_all_clean_count_to(self.dirty.len() as int);
    }

    /// Count the number of blocks covered by dirty segments.
    pub fn count_dirty_blks(&self) -> (r: u64)
        requires
            self.wf(),
        ensures
            r == self.spec_count_dirty_blks(),
            r <= self.num_blocks,
    {
        let n = self.dirty.len();
        let mut sum: u64 = 0;
        let mut i: usize = 0;
        while i < n
            invariant
                self.wf(),
                n == self.dirty.len(),
                i <= n,
                sum == self.spec_count_dirty_to(i as int),
                sum <= self.num_blocks,
            decreases n - i,
        {
            proof {
                self.lemma_count_dirty_bound(i as int + 1);
                assert((i as int) * (self.segment_size_blks as int) < self.num_blocks)
                    by (nonlinear_arith)
                    requires
                        0 <= i < spec_num_segments(self.num_blocks as int, self.segment_size_blks as int),
                        self.segment_size_blks > 0,
                        spec_num_segments(self.num_blocks as int, self.segment_size_blks as int)
                            == if self.num_blocks as int % self.segment_size_blks as int == 0 {
                            self.num_blocks as int / self.segment_size_blks as int
                        } else {
                            self.num_blocks as int / self.segment_size_blks as int + 1
                        },
                ;
                assert(((i as int) + 1) * (self.segment_size_blks as int) == (i as int) * (
                self.segment_size_blks as int) + self.segment_size_blks) by (nonlinear_arith);
            }
            if self.dirty[i] {
                let seg_start = (i as u64) * self.segment_size_blks;
                let seg_len = if seg_start + self.segment_size_blks <= self.num_blocks {
                    self.segment_size_blks
                } else {
                    self.num_blocks - seg_start
                };
                sum = sum + seg_len;
            }
            i += 1;
        }
        sum
    }

    /// Whether the segment covering block `blk` is clean.
    pub fn is_blk_clean(&self, blk: u64) -> (r: bool)
        requires
            self.wf(),
            blk < self.num_blocks,
        ensures
            r == !self.spec_dirty(blk as int / self.segment_size_blks as int),
    {
        proof {
            assert((blk as int / self.segment_size_blks as int) < spec_num_segments(
                self.num_blocks as int,
                self.segment_size_blks as int,
            )) by (nonlinear_arith)
                requires
                    self.segment_size_blks > 0,
                    blk < self.num_blocks,
                    spec_num_segments(self.num_blocks as int, self.segment_size_blks as int) == if self.num_blocks
                        as int % self.segment_size_blks as int == 0 {
                        self.num_blocks as int / self.segment_size_blks as int
                    } else {
                        self.num_blocks as int / self.segment_size_blks as int + 1
                    },
            ;
        }
        !self.dirty[(blk / self.segment_size_blks) as usize]
    }

    /// Clear the dirty flag of the segment covering block `blk`, after the
    /// segment has been rebuilt.
    pub fn blk_clean(&mut self, blk: u64)
        requires
            old(self).wf(),
            blk < old(self).num_blocks,
        ensures
            final(self).wf(),
            final(self).device_name == old(self).device_name,
            final(self).num_blocks == old(self).num_blocks,
            final(self).segment_size_blks == old(self).segment_size_blks,
            final(self).dirty@ == old(self).dirty@.update(
                blk as int / old(self).segment_size_blks as int,
                false,
            ),
    {
        proof {
            assert((blk as int / self.segment_size_blks as int) < spec_num_segments(
                self.num_blocks as int,
                self.segment_size_blks as int,
            )) by (nonlinear_arith)
                requires
                    self.segment_size_blks > 0,
                    blk < self.num_blocks,
                    spec_num_segments(self.num_blocks as int, self.segment_size_blks as int) == if self.num_blocks
                        as int % self.segment_size_blks as int == 0 {
                        self.num_blocks as int / self.segment_size_blks as int
                    } else {
                        self.num_blocks as int / self.segment_size_blks as int + 1
                    },
            ;
        }
        let i = (blk / self.segment_size_blks) as usize;
        self.dirty[i] = false;
    }
}

/// Per-child write-intent log: a dirty-segment bitmap filled by the write
/// path while the child is out of sync for a transient reason.
pub struct IOLog {
    /// The bitmap; `finalize` hands it over as the rebuild map.
    pub map: RebuildMap,
    /// Bytes per block of the logged device.
    pub block_len: u64,
}

impl IOLog {
    /// The bitmap grid matches the shared rebuild segment size.
    pub open spec fn wf(self) -> bool {
        &&& self.map.wf()
        &&& 0 < self.block_len <= SEGMENT_SIZE
        &&& self.map.segment_size_blks == SEGMENT_SIZE as int / self.block_len as int
    }

    /// Create an all-clean log sized to the device.
    pub fn new(device_name: String, num_blocks: u64, block_len: u64) -> (r: Self)
        requires
            0 < block_len <= SEGMENT_SIZE,
            num_blocks <= u64::MAX - SEGMENT_SIZE,
            spec_num_segments(num_blocks as int, SEGMENT_SIZE as int / block_len as int)
                <= usize::MAX as int,
        ensures
            r.wf(),
            r.map.all_clean(),
            r.map.device_name == device_name,
            r.map.num_blocks == num_blocks,
            r.block_len == block_len,
    {
        let segment_size_blks = SEGMENT_SIZE / block_len;
        proof {
            assert(SEGMENT_SIZE as int / block_len as int >= 1) by (nonlinear_arith)
                requires
                    0 < block_len <= SEGMENT_SIZE,
            ;
        }
        let whole = num_blocks / segment_size_blks;
        let n: usize = if num_blocks % segment_size_blks == 0 {
            whole as usize
        } else {
            (whole + 1) as usize
        };
        let dirty = vec![false; n];
        IOLog {
            map: RebuildMap { device_name, num_blocks, segment_size_blks, dirty },
            block_len,
        }
    }

    /// Mark every segment overlapping the written block range dirty.
    pub fn log_io(&mut self, blk: u64, num_blks: u64)
        requires
            old(self).wf(),
            num_blks > 0,
            blk + num_blks <= old(self).map.num_blocks,
        ensures
            final(self).wf(),
            final(self).block_len == old(self).block_len,
            final(self).map.device_name == old(self).map.device_name,
            final(self).map.num_blocks == old(self).map.num_blocks,
            final(self).map.segment_size_blks == old(self).map.segment_size_blks,
            final(self).map.dirty.len() == old(self).map.dirty.len(),
            forall|i: int|
                0 <= i < old(self).map.dirty.len() ==> final(self).map.spec_dirty(i) == (old(
                    self,
                ).map.spec_dirty(i) || (blk as int / old(self).map.segment_size_blks as int <= i
                    && i <= (blk + num_blks - 1) as int / old(
                    self,
                ).map.segment_size_blks as int)),
    {
        let ssb = self.map.segment_size_blks;
        let lo = (blk / ssb) as usize;
        let hi = ((blk + num_blks - 1) / ssb) as usize;
        proof {
            assert(((blk + num_blks - 1) as int / ssb as int) < spec_num_segments(self.map.num_blocks as int, ssb as int))
                by (nonlinear_arith)
                requires
                    ssb > 0,
                    blk + num_blks - 1 < self.map.num_blocks,
                    spec_num_segments(self.map.num_blocks as int, ssb as int) == if self.map.num_blocks as int % ssb as int
                        == 0 {
                        self.map.num_blocks as int / ssb as int
                    } else {
                        self.map.num_blocks as int / ssb as int + 1
                    },
            ;
            assert(blk as int / ssb as int <= (blk + num_blks - 1) as int / ssb as int) by (nonlinear_arith)
                requires
                    ssb > 0,
                    num_blks > 0,
                    blk + num_blks - 1 <= u64::MAX,
            ;
        }
        let mut i: usize = lo;
        while i < hi + 1
            invariant
                self.map.segment_size_blks == ssb,
                self.map.wf(),
                self.block_len == old(self).block_len,
                self.map.segment_size_blks == old(self).map.segment_size_blks,
                self.map.device_name == old(self).map.device_name,
                self.map.num_blocks == old(self).map.num_blocks,
                self.map.dirty.len() == old(self).map.dirty.len(),
                0 < self.block_len <= SEGMENT_SIZE,
                ssb == SEGMENT_SIZE as int / self.block_len as int,
                lo <= i <= hi + 1,
                hi < self.map.dirty.len(),
                forall|j: int|
                    0 <= j < old(self).map.dirty.len() ==> self.map.spec_dirty(j) == (old(
                        self,
                    ).map.spec_dirty(j) || (lo <= j < i)),
            decreases hi + 1 - i,
        {
            self.map.dirty[i] = true;
            i += 1;
        }
    }

    /// Stop logging and hand the dirty set over for a partial rebuild.
    pub fn finalize(self) -> (r: RebuildMap)
        ensures
            r == self.map,
    {
        self.map
    }
}

} // verus!
