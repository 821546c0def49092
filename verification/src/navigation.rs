//! The viewer's state: the recording and the snapshot being shown.

use vstd::prelude::*;
use crate::data::{BenchmarkResult, HeapStep};

verus! {

/// The loaded recording, the index of the snapshot on screen, and the
/// benchmark summaries shown beside it.
pub struct App {
    pub steps: Vec<HeapStep>,
    pub current_step_index: usize,
    pub benchmark_results: Vec<BenchmarkResult>,
}

/// The index after one step forward among `len` snapshots: the next one,
/// or the same where there is no next one.
pub open spec fn next_index(index: int, len: int) -> int {
    if index + 1 < len {
        index + 1
    } else {
        index
    }
}

/// The index after one step backward: the one before, or the same at the
/// first snapshot.
pub open spec fn prev_index(index: int) -> int {
    if index > 0 {
        index - 1
    } else {
        index
    }
}

/// The index after `times` steps forward.
pub open spec fn forward(index: int, len: int, times: nat) -> int
    decreases times,
{
    if times == 0 {
        index
    } else {
        forward(next_index(index, len), len, (times - 1) as nat)
    }
}

/// The index after `times` steps backward.
pub open spec fn backward(index: int, times: nat) -> int
    decreases times,
{
    if times == 0 {
        index
    } else {
        backward(prev_index(index), (times - 1) as nat)
    }
}

impl App {
    /// The current index names a snapshot, or is zero where there is none.
    pub open spec fn wf(&self) -> bool {
        self.current_step_index < self.steps.len() || self.current_step_index == 0
    }

    /// Starts at the first snapshot of `steps`.
    pub fn new(steps: Vec<HeapStep>, benchmark_results: Vec<BenchmarkResult>) -> (app: App)
        ensures
            app.steps == steps,
            app.benchmark_results == benchmark_results,
            app.current_step_index == 0,
            app.wf(),
    {
        App { steps, current_step_index: 0, benchmark_results }
    }

    /// Moves to the next snapshot; stays at the last one.
    pub fn next_step(&mut self)
        ensures
            final(self).steps == old(self).steps,
            final(self).benchmark_results == old(self).benchmark_results,
            final(self).current_step_index == next_index(
                old(self).current_step_index as int,
                old(self).steps.len() as int,
            ),
            old(self).wf() ==> final(self).wf(),
    {
        if self.steps.len() > 0 && self.current_step_index < self.steps.len() - 1 {
            self.current_step_index += 1;
        }
    }

    /// Moves to the snapshot before; stays at the first one.
    pub fn prev_step(&mut self)
        ensures
            final(self).steps == old(self).steps,
            final(self).benchmark_results == old(self).benchmark_results,
            final(self).current_step_index == prev_index(old(self).current_step_index as int),
            old(self).wf() ==> final(self).wf(),
    {
        if self.current_step_index > 0 {
            self.current_step_index -= 1;
        }
    }

    /// The snapshot on screen.
    pub fn current_step(&self) -> (step: &HeapStep)
        requires
            self.current_step_index < self.steps.len(),
        ensures
            *step == self.steps[self.current_step_index as int],
    {
        &self.steps[self.current_step_index]
    }
}

/// Stepping forward `times` times from a valid index moves that many
/// snapshots on, but not past the last one.
pub proof fn lemma_forward_saturates(index: int, len: int, times: nat)
    requires
        0 <= index < len,
    ensures
        forward(index, len, times) == if index + times < len {
            index + times
        } else {
            len - 1
        },
    decreases times,
{
    if times > 0 {
        lemma_forward_saturates(next_index(index, len), len, (times - 1) as nat);
    }
}

/// Stepping backward `times` times moves that many snapshots back, but not
/// before the first one.
pub proof fn lemma_backward_saturates(index: int, times: nat)
    requires
        0 <= index,
    ensures
        backward(index, times) == if index >= times {
            index - times
        } else {
            0
        },
    decreases times,
{
    if times > 0 {
        lemma_backward_saturates(prev_index(index), (times - 1) as nat);
    }
}

/// In a recording of `len` snapshots, more steps forward than there are
/// snapshots lead from the first to the last one, and as many steps
/// backward lead from there to the first.
pub proof fn lemma_navigation_stays_in_bounds(len: int, extra: nat)
    requires
        len > 0,
    ensures
        forward(0, len, (len + extra) as nat) == len - 1,
        backward(len - 1, (len + extra) as nat) == 0,
{
    lemma_forward_saturates(0, len, (len + extra) as nat);
    lemma_backward_saturates(len - 1, (len + extra) as nat);
}

} // verus!
