//! In-memory model of the block storage a rebuild reads and writes.
//!
//! The rebuild engine addresses devices by block; this model holds the
//! bytes themselves, so that what a copy does to the destination is
//! stated exactly.

use vstd::prelude::*;

verus! {

/// Block-addressed byte storage.
pub struct BlockStore {
    /// Bytes per block.
    pub block_len: u64,
    /// The device's bytes, a whole number of blocks.
    pub data: Vec<u8>,
}

impl BlockStore {
    /// Blocks are non-empty and the bytes form whole blocks.
    pub open spec fn wf(self) -> bool {
        &&& self.block_len > 0
        &&& self.data.len() as int % self.block_len as int == 0
    }

    /// Number of blocks the store holds.
    pub open spec fn spec_num_blocks(self) -> int {
        self.data.len() as int / self.block_len as int
    }

    /// Number of blocks the store holds.
    pub fn num_blocks(&self) -> (r: u64)
        requires
            self.wf(),
        ensures
            r == self.spec_num_blocks(),
    {
        (self.data.len() as u64) / self.block_len
    }

    /// Bytes per block.
    pub fn block_len(&self) -> (r: u64)
        ensures
            r == self.block_len,
    {
        self.block_len
    }
}

/// A whole number of blocks means block offsets stay within the data.
pub proof fn lemma_block_offset_in_bounds(s: BlockStore, b: int)
    requires
        s.wf(),
        0 <= b <= s.spec_num_blocks(),
    ensures
        b * s.block_len <= s.data.len(),
        b < s.spec_num_blocks() ==> (b + 1) * s.block_len <= s.data.len(),
{
    assert(b * s.block_len <= s.data.len() && (b < s.spec_num_blocks() ==> (b + 1) * s.block_len
        <= s.data.len())) by (nonlinear_arith)
        requires
            s.block_len > 0,
            s.data.len() as int % s.block_len as int == 0,
            0 <= b <= s.spec_num_blocks(),
            s.spec_num_blocks() == s.data.len() as int / s.block_len as int,
    ;
}

/// Copy `count` blocks starting at block `blk` from `src` into `dst`:
/// exactly those bytes of the destination take the source's values; every
/// other byte is untouched.
pub fn copy_blocks(src: &BlockStore, dst: &mut BlockStore, blk: u64, count: u64)
    requires
        src.wf(),
        old(dst).wf(),
        src.block_len == old(dst).block_len,
        blk + count <= src.spec_num_blocks(),
        blk + count <= old(dst).spec_num_blocks(),
    ensures
        final(dst).wf(),
        final(dst).block_len == old(dst).block_len,
        final(dst).data@.len() == old(dst).data@.len(),
        forall|i: int|
            blk * src.block_len <= i < (blk + count) * src.block_len ==> final(dst).data@[i]
                == src.data@[i],
        forall|i: int|
            0 <= i < old(dst).data@.len() && !(blk * src.block_len <= i < (blk + count)
                * src.block_len) ==> final(dst).data@[i] == old(dst).data@[i],
{
    proof {
        lemma_block_offset_in_bounds(*src, blk as int);
        lemma_block_offset_in_bounds(*src, blk + count);
        lemma_block_offset_in_bounds(*old(dst), blk + count);
        assert((blk + count) * src.block_len == blk * src.block_len + count * src.block_len)
            by (nonlinear_arith);
        assert(blk * src.block_len >= 0) by (nonlinear_arith)
            requires
                blk >= 0,
                src.block_len > 0,
        ;
    }
    let start = blk * src.block_len;
    let len = count * src.block_len;
    let mut j: u64 = 0;
    while j < len
        invariant
            src.wf(),
            dst.wf(),
            src.block_len == dst.block_len,
            dst.data@.len() == old(dst).data@.len(),
            dst.block_len == old(dst).block_len,
            start == blk * src.block_len,
            len == count * src.block_len,
            start + len <= src.data@.len(),
            start + len <= dst.data@.len(),
            j <= len,
            forall|i: int| start <= i < start + j ==> dst.data@[i] == src.data@[i],
            forall|i: int|
                0 <= i < old(dst).data@.len() && !(start <= i < start + j) ==> dst.data@[i] == old(
                    dst,
                ).data@[i],
        decreases len - j,
    {
        let idx = (start + j) as usize;
        let b = src.data[idx];
        dst.data[idx] = b;
        j += 1;
    }
}

} // verus!
