//! Sub-component trigger protocol: the pending-input counter and the
//! decision whether a write to a sub-component input must run that
//! sub-component.

use vstd::prelude::*;
use crate::ir::StatusInput;

verus! {

/// Outcome of applying one input write to a sub-component's
/// pending-input counter.
#[derive(Clone, Copy, Debug, PartialEq, Eq, Structural)]
pub struct TriggerOutcome {
    /// The counter after the decrement.
    pub counter: u64,
    /// Whether the sub-component's run routine must be dispatched now.
    pub run: bool,
}

/// Applies one input write of `size` elements to the pending-input
/// counter.  The run routine is dispatched exactly when the counter
/// reaches zero on this write, whatever the static classification of
/// the write says; the classification only restricts which situations
/// may occur.
pub fn trigger_step(counter: u64, size: u64, status: StatusInput) -> (r: TriggerOutcome)
    requires
        size <= counter,
        status == StatusInput::NoLast ==> size < counter,
        status == StatusInput::Last ==> size == counter,
    ensures
        r.counter == counter - size,
        r.run <==> counter == size,
{
    let next = counter - size;
    match status {
        StatusInput::NoLast => TriggerOutcome { counter: next, run: false },
        StatusInput::Last => TriggerOutcome { counter: next, run: true },
        StatusInput::Unknown => TriggerOutcome { counter: next, run: next == 0 },
    }
}

/// Total number of elements written by the first `k` stores of a
/// sequence of input writes.
pub open spec fn written_prefix(sizes: Seq<u64>, k: int) -> int
    decreases k,
{
    if k <= 0 {
        0
    } else {
        written_prefix(sizes, k - 1) + if k <= sizes.len() {
            sizes[k - 1] as int
        } else {
            0
        }
    }
}

/// The counter before write `k`, when the sub-component declares
/// `total` inputs and the writes deliver `sizes` elements each.
pub open spec fn counter_before(total: int, sizes: Seq<u64>, k: int) -> int {
    total - written_prefix(sizes, k)
}

/// Whether write `k` of the sequence triggers the run: exactly when the
/// elements written so far, this write included, reach the declared
/// total.
pub open spec fn fires_at(total: int, sizes: Seq<u64>, k: int) -> bool {
    written_prefix(sizes, k + 1) == total
}

/// Writing a non-empty store strictly increases the cumulative count.
pub proof fn lemma_written_prefix_increases(sizes: Seq<u64>, j: int, k: int)
    requires
        0 <= j <= k <= sizes.len(),
        forall|i: int| 0 <= i < sizes.len() ==> #[trigger] sizes[i] >= 1,
    ensures
        written_prefix(sizes, j) + (k - j) <= written_prefix(sizes, k),
    decreases k - j,
{
    if j < k {
        lemma_written_prefix_increases(sizes, j, k - 1);
    }
}

/// Law: over any sequence of non-empty input writes that together
/// deliver exactly the sub-component's declared input total, the run
/// routine fires exactly once — on the last write, and on no earlier
/// one — regardless of how the elements are batched over the writes.
pub proof fn lemma_run_fires_exactly_once(total: int, sizes: Seq<u64>)
    requires
        sizes.len() > 0,
        forall|i: int| 0 <= i < sizes.len() ==> #[trigger] sizes[i] >= 1,
        written_prefix(sizes, sizes.len() as int) == total,
    ensures
        fires_at(total, sizes, sizes.len() - 1),
        forall|k: int| 0 <= k < sizes.len() - 1 ==> !fires_at(total, sizes, k),
{
    assert forall|k: int| 0 <= k < sizes.len() - 1 implies !fires_at(total, sizes, k) by {
        lemma_written_prefix_increases(sizes, k + 1, sizes.len() as int);
    }
}

/// Law: the run decision of one write agrees with the cumulative view —
/// a write fires exactly when it brings the counter from its current
/// value down to zero.
pub proof fn lemma_step_matches_cumulative(total: int, sizes: Seq<u64>, k: int)
    requires
        0 <= k < sizes.len(),
    ensures
        (counter_before(total, sizes, k) == sizes[k] as int) <==> fires_at(total, sizes, k),
{
    assert(written_prefix(sizes, k + 1) == written_prefix(sizes, k) + sizes[k] as int);
}

} // verus!
