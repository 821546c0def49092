//! Figures about the blocks of one snapshot.

use vstd::prelude::*;
use crate::data::MemoryBlock;
use crate::layout::{lemma_total_size_step, total_size};

verus! {

/// Blocks below this size count as small.
pub const SMALL_LIMIT: usize = 32;

/// Blocks below this size, and not small, count as medium; the others as
/// large.
pub const MEDIUM_LIMIT: usize = 128;

/// How many blocks of each size class a snapshot holds, and how many bytes
/// are in use and free.
#[derive(Clone, Copy, Debug, PartialEq, Eq, Structural)]
pub struct BlockStats {
    pub small_blocks: u64,
    pub medium_blocks: u64,
    pub large_blocks: u64,
    pub used_bytes: u128,
    pub free_bytes: u128,
}

pub open spec fn is_small(block: MemoryBlock) -> bool {
    block.size < SMALL_LIMIT
}

pub open spec fn is_medium(block: MemoryBlock) -> bool {
    SMALL_LIMIT <= block.size < MEDIUM_LIMIT
}

pub open spec fn is_large(block: MemoryBlock) -> bool {
    MEDIUM_LIMIT <= block.size
}

/// The free blocks among `blocks`, in order.
pub open spec fn free_blocks(blocks: Seq<MemoryBlock>) -> Seq<MemoryBlock> {
    blocks.filter(|b: MemoryBlock| b.is_free)
}

/// The blocks in use among `blocks`, in order.
pub open spec fn used_blocks(blocks: Seq<MemoryBlock>) -> Seq<MemoryBlock> {
    blocks.filter(|b: MemoryBlock| !b.is_free)
}

/// The figures of `blocks`.
pub open spec fn stats_of(blocks: Seq<MemoryBlock>, stats: BlockStats) -> bool {
    &&& stats.small_blocks == blocks.filter(|b: MemoryBlock| is_small(b)).len()
    &&& stats.medium_blocks == blocks.filter(|b: MemoryBlock| is_medium(b)).len()
    &&& stats.large_blocks == blocks.filter(|b: MemoryBlock| is_large(b)).len()
    &&& stats.used_bytes == total_size(used_blocks(blocks))
    &&& stats.free_bytes == total_size(free_blocks(blocks))
}

/// Filtering a prefix one block longer keeps that block or not.
proof fn lemma_filter_step(blocks: Seq<MemoryBlock>, i: int, keep: spec_fn(MemoryBlock) -> bool)
    requires
        0 <= i < blocks.len(),
    ensures
        blocks.take(i + 1).filter(keep) == if keep(blocks[i]) {
            blocks.take(i).filter(keep).push(blocks[i])
        } else {
            blocks.take(i).filter(keep)
        },
{
    reveal(Seq::filter);
    assert(blocks.take(i + 1).drop_last() =~= blocks.take(i));
}

/// Counts the blocks by size class and adds up the bytes in use and free.
pub fn block_stats(blocks: &[MemoryBlock]) -> (stats: BlockStats)
    ensures
        stats_of(blocks@, stats),
        stats.small_blocks + stats.medium_blocks + stats.large_blocks == blocks.len(),
        stats.used_bytes + stats.free_bytes == total_size(blocks@),
{
    let mut stats = BlockStats {
        small_blocks: 0,
        medium_blocks: 0,
        large_blocks: 0,
        used_bytes: 0,
        free_bytes: 0,
    };
    let mut i: usize = 0;
    assert(blocks@.take(0) =~= Seq::<MemoryBlock>::empty());
    proof {
        reveal(Seq::filter);
    }
    while i < blocks.len()
        invariant
            i <= blocks.len(),
            stats_of(blocks@.take(i as int), stats),
            stats.small_blocks + stats.medium_blocks + stats.large_blocks == i,
            stats.used_bytes + stats.free_bytes == total_size(blocks@.take(i as int)),
            stats.used_bytes + stats.free_bytes <= i * usize::MAX,
        decreases blocks.len() - i,
    {
        let block: MemoryBlock = blocks[i];
        proof {
            let head = blocks@.take(i as int);
            lemma_filter_step(blocks@, i as int, |b: MemoryBlock| is_small(b));
            lemma_filter_step(blocks@, i as int, |b: MemoryBlock| is_medium(b));
            lemma_filter_step(blocks@, i as int, |b: MemoryBlock| is_large(b));
            lemma_filter_step(blocks@, i as int, |b: MemoryBlock| b.is_free);
            lemma_filter_step(blocks@, i as int, |b: MemoryBlock| !b.is_free);
            lemma_total_size_step(blocks@, i as int);
            assert(used_blocks(head).push(block).drop_last() =~= used_blocks(head));
            assert(free_blocks(head).push(block).drop_last() =~= free_blocks(head));
            assert((i + 1) * usize::MAX <= 0xffff_ffff_ffff_ffff * 0xffff_ffff_ffff_ffff)
                by (nonlinear_arith)
                requires
                    0 <= i + 1 <= 0xffff_ffff_ffff_ffff,
                    0 <= usize::MAX <= 0xffff_ffff_ffff_ffff,
            ;
            assert((i + 1) * usize::MAX == i * usize::MAX + usize::MAX) by (nonlinear_arith);
        }
        if block.size < SMALL_LIMIT {
            stats.small_blocks += 1;
        } else if block.size < MEDIUM_LIMIT {
            stats.medium_blocks += 1;
        } else {
            stats.large_blocks += 1;
        }
        if block.is_free {
            stats.free_bytes += block.size as u128;
        } else {
            stats.used_bytes += block.size as u128;
        }
        i = i + 1;
    }
    assert(blocks@.take(blocks.len() as int) =~= blocks@);
    stats
}

} // verus!
