//! The records a heap recording is made of.

use vstd::prelude::*;

verus! {

/// One allocator block at a point in time.
#[derive(Clone, Copy, Debug, PartialEq, Eq, Structural)]
pub struct MemoryBlock {
    pub addr: usize,
    pub size: usize,
    pub is_free: bool,
}

/// One recorded state of the heap: the operation that led to it and the
/// blocks in address order.
///
/// `highlight` is the address the operation touched; it need not be the
/// address of any block.
#[derive(Clone, Debug, PartialEq, Eq)]
pub struct HeapStep {
    pub algo: String,
    pub step: usize,
    pub op: String,
    pub highlight: usize,
    pub blocks: Vec<MemoryBlock>,
}

/// The summary of one benchmark run, with the elapsed time in whole
/// milliseconds.
#[derive(Clone, Debug, PartialEq, Eq)]
pub struct BenchmarkResult {
    pub name: String,
    pub time_ms: u64,
    pub total_blocks: u64,
}

} // verus!
