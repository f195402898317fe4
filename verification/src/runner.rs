//! A small fold framework for per-sample state machines.
//!
//! Every stateful operator renders a block by threading its state through
//! the samples of its input, one step at a time, from left to right.
//! `run_state` and `run_out` give the final state and the emitted samples
//! of such a fold; they recurse on the last sample, so a render loop can
//! extend its invariant by one sample definitionally.

use vstd::prelude::*;

verus! {

/// The state after folding `step` over `ins` from the left, starting at `s`.
pub open spec fn run_state<St, X>(step: spec_fn(St, X) -> (St, i64), s: St, ins: Seq<X>) -> St
    decreases ins.len(),
{
    if ins.len() == 0 {
        s
    } else {
        step(run_state(step, s, ins.drop_last()), ins.last()).0
    }
}

/// The samples emitted while folding `step` over `ins` from the left.
pub open spec fn run_out<St, X>(
    step: spec_fn(St, X) -> (St, i64),
    s: St,
    ins: Seq<X>,
) -> Seq<i64>
    decreases ins.len(),
{
    if ins.len() == 0 {
        Seq::empty()
    } else {
        run_out(step, s, ins.drop_last()).push(
            step(run_state(step, s, ins.drop_last()), ins.last()).1,
        )
    }
}

/// The fold emits one sample per input.
pub proof fn lemma_run_out_len<St, X>(step: spec_fn(St, X) -> (St, i64), s: St, ins: Seq<X>)
    ensures
        run_out(step, s, ins).len() == ins.len(),
    decreases ins.len(),
{
    if ins.len() > 0 {
        lemma_run_out_len(step, s, ins.drop_last());
    }
}

/// A sequence of `n` unit inputs, for operators that consume no signal.
pub open spec fn ticks(n: nat) -> Seq<()> {
    Seq::new(n, |i: int| ())
}

/// Zip three equally long sequences of samples.
pub open spec fn zip3(a: Seq<i64>, b: Seq<i64>, c: Seq<i64>) -> Seq<(i64, i64, i64)>
    recommends
        a.len() == b.len(),
        a.len() == c.len(),
{
    Seq::new(a.len(), |i: int| (a[i], b[i], c[i]))
}

} // verus!
