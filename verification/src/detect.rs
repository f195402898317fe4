//! Rising-edge detection.  A sample at or above `UNIT` is High, anything
//! below is Low; the trigger emits a one-sample pulse of `UNIT` on every
//! Low-to-High transition of its input.

use vstd::prelude::*;

use crate::Block;
use crate::Operator;
use crate::SynthContext;
use crate::BLOCK_SIZE;
use crate::UNIT;
use crate::runner::lemma_run_out_len;
use crate::runner::run_out;
use crate::runner::run_state;
use crate::sample::seq_wf;

verus! {

/// Logical level of one sample.
#[derive(Debug, Clone, Copy, PartialEq, Eq, Structural)]
pub enum TriggerState {
    Low,
    High,
}

/// A sample below `UNIT` is Low; `UNIT` and above is High.
pub open spec fn classify(s: i64) -> TriggerState {
    if s < UNIT {
        TriggerState::Low
    } else {
        TriggerState::High
    }
}

/// One step of the edge detector: the new memory is the classification of
/// the incoming sample; a pulse fires exactly on a Low-to-High transition.
pub open spec fn trig_step() -> spec_fn(TriggerState, i64) -> (TriggerState, i64) {
    |prev: TriggerState, x: i64|
        (
            classify(x),
            if prev == TriggerState::Low && classify(x) == TriggerState::High {
                UNIT
            } else {
                0i64
            },
        )
}

/// Wraps an input in a rising-edge detector.
#[derive(Debug, Clone)]
pub struct Trigger<I> {
    pub input: I,
    pub previous_sample: TriggerState,
}

impl<I: Operator> Operator for Trigger<I> {
    type Model = (I::Model, TriggerState);

    open spec fn model(self) -> Self::Model {
        (self.input.model(), self.previous_sample)
    }

    open spec fn m_wf(m: Self::Model) -> bool {
        I::m_wf(m.0)
    }

    open spec fn m_out(m: Self::Model, ctx: SynthContext) -> Seq<i64> {
        run_out(trig_step(), m.1, I::m_out(m.0, ctx))
    }

    open spec fn m_next(m: Self::Model, ctx: SynthContext) -> Self::Model {
        (I::m_next(m.0, ctx), run_state(trig_step(), m.1, I::m_out(m.0, ctx)))
    }

    fn render(&mut self, ctx: &SynthContext) -> (b: Block) {
        let inb = self.input.render(ctx);
        let ghost ins = inb@;
        let ghost step = trig_step();
        let ghost s0 = self.previous_sample;
        let mut st = self.previous_sample;
        let mut samples: Vec<i64> = Vec::new();
        let mut i: usize = 0;
        while i < BLOCK_SIZE
            invariant
                i <= BLOCK_SIZE,
                inb@ == ins,
                ins.len() == BLOCK_SIZE,
                step == trig_step(),
                st == run_state(step, s0, ins.take(i as int)),
                samples@ == run_out(step, s0, ins.take(i as int)),
                samples@.len() == i,
                seq_wf(samples@),
            decreases BLOCK_SIZE - i,
        {
            let x = inb.get(i);
            let cls = if x < UNIT {
                TriggerState::Low
            } else {
                TriggerState::High
            };
            let fire = st == TriggerState::Low && cls == TriggerState::High;
            let v: i64 = if fire {
                UNIT
            } else {
                0
            };
            proof {
                let pre = ins.take(i as int);
                assert(ins.take(i + 1).drop_last() =~= pre);
                assert(ins.take(i + 1).last() == ins[i as int]);
                assert(step(st, x) == (cls, v));
            }
            samples.push(v);
            st = cls;
            i += 1;
        }
        proof {
            assert(ins.take(BLOCK_SIZE as int) =~= ins);
        }
        self.previous_sample = st;
        Block::from_samples(samples)
    }
}

/// The edge detector fires exactly on rising edges: sample `i` of the
/// output is a pulse precisely when the input is High at `i` and was Low
/// just before it (at `i - 1`, or in the detector's memory for `i == 0`);
/// every other sample is 0.  The memory afterwards is the classification
/// of the last input sample.
pub proof fn lemma_trigger_edges_only(s0: TriggerState, ins: Seq<i64>)
    ensures
        run_out(trig_step(), s0, ins).len() == ins.len(),
        forall|i: int|
            0 <= i < ins.len() ==> #[trigger] run_out(trig_step(), s0, ins)[i] == (
            if classify(ins[i]) == TriggerState::High && (if i == 0 {
                s0
            } else {
                classify(ins[i - 1])
            }) == TriggerState::Low {
                UNIT
            } else {
                0i64
            }),
        ins.len() > 0 ==> run_state(trig_step(), s0, ins) == classify(ins.last()),
        ins.len() == 0 ==> run_state(trig_step(), s0, ins) == s0,
    decreases ins.len(),
{
    lemma_run_out_len(trig_step(), s0, ins);
    if ins.len() > 0 {
        lemma_trigger_edges_only(s0, ins.drop_last());
        lemma_run_out_len(trig_step(), s0, ins.drop_last());
        let n = ins.len() - 1;
        assert(forall|i: int|
            0 <= i < n ==> #[trigger] ins.drop_last()[i] == ins[i]);
    }
}

} // verus!
