//! Branching and sharing: the sequential switch, which steps through its
//! branch signals on rising edges of a control input, and the tap, which
//! memoizes one operator's block per driver tick so that several
//! consumers can read it without re-rendering.

use vstd::prelude::*;

use crate::Block;
use crate::Operator;
use crate::SynthContext;
use crate::BLOCK_SIZE;
use crate::UNIT;
use crate::block_wf;
use crate::ctx_wf;
use crate::silence_seq;
use crate::detect::Trigger;
use crate::detect::TriggerState;
use crate::runner::run_out;
use crate::runner::run_state;
use crate::sample::seq_wf;

verus! {

/// Pair every sample of a block with its lane index.
pub open spec fn with_pos(s: Seq<i64>) -> Seq<(i64, int)> {
    Seq::new(s.len(), |i: int| (s[i], i))
}

/// One step of the sequential switch.  The machine state is the branch
/// models, the current branch index, and the block the current branch
/// produced.  A high trigger sample advances the index (wrapping) and
/// renders the newly current branch to a fresh full block; the emitted
/// sample is the current block's lane at this position.
pub open spec fn switch_step<S: Operator>(ctx: SynthContext) -> spec_fn(
    (Seq<S::Model>, int, Seq<i64>),
    (i64, int),
) -> ((Seq<S::Model>, int, Seq<i64>), i64) {
    |st: (Seq<S::Model>, int, Seq<i64>), x: (i64, int)|
        if x.0 >= UNIT {
            let idx2 = (st.1 + 1) % (st.0.len() as int);
            let blk = S::m_out(st.0[idx2], ctx);
            ((st.0.update(idx2, S::m_next(st.0[idx2], ctx)), idx2, blk), blk[x.1])
        } else {
            (st, st.2[x.1])
        }
}

/// The switch machine's starting state: the branch that is current when
/// the block begins has just been rendered.
pub open spec fn switch_init<S: Operator>(
    sigs: Seq<S::Model>,
    index: int,
    ctx: SynthContext,
) -> (Seq<S::Model>, int, Seq<i64>) {
    (sigs.update(index, S::m_next(sigs[index], ctx)), index, S::m_out(sigs[index], ctx))
}

/// Steps through its owned branch signals: each rising edge of the
/// control input advances to the next branch (wrapping around) and
/// re-renders it; branches that are not current do not advance within
/// the block.
pub struct SequentialSwitch<I, S> {
    pub trigger: Trigger<I>,
    pub signals: Vec<S>,
    pub index: usize,
}

impl<I: Operator, S: Operator> SequentialSwitch<I, S> {
    /// A switch over `signals`, advanced by the given edge detector.
    pub fn new(trigger: Trigger<I>, signals: Vec<S>) -> (r: SequentialSwitch<I, S>)
        requires
            signals@.len() >= 1,
        ensures
            r.trigger == trigger,
            r.signals == signals,
            r.index == 0,
    {
        SequentialSwitch { trigger, signals, index: 0 }
    }
}

/// Render one branch in place, leaving the others untouched.
fn render_branch<S: Operator>(signals: &mut Vec<S>, j: usize, ctx: &SynthContext) -> (b: Block)
    requires
        j < old(signals)@.len(),
        S::m_wf(old(signals)@[j as int].model()),
        ctx_wf(*ctx),
    ensures
        final(signals)@.len() == old(signals)@.len(),
        forall|t: int|
            0 <= t < old(signals)@.len() && t != j ==> final(signals)@[t] == old(signals)@[t],
        final(signals)@[j as int].model() == S::m_next(old(signals)@[j as int].model(), *ctx),
        S::m_wf(final(signals)@[j as int].model()),
        b@ == S::m_out(old(signals)@[j as int].model(), *ctx),
        block_wf(b),
{
    let sig = &mut signals[j];
    sig.render(ctx)
}

impl<I: Operator, S: Operator> Operator for SequentialSwitch<I, S> {
    type Model = ((I::Model, TriggerState), Seq<S::Model>, int);

    open spec fn model(self) -> Self::Model {
        (
            self.trigger.model(),
            self.signals@.map_values(|s: S| s.model()),
            self.index as int,
        )
    }

    open spec fn m_wf(m: Self::Model) -> bool {
        I::m_wf(m.0.0) && m.1.len() >= 1 && 0 <= m.2 < m.1.len() && (forall|j: int|
            0 <= j < m.1.len() ==> S::m_wf(#[trigger] m.1[j]))
    }

    open spec fn m_out(m: Self::Model, ctx: SynthContext) -> Seq<i64> {
        run_out(
            switch_step::<S>(ctx),
            switch_init::<S>(m.1, m.2, ctx),
            with_pos(<Trigger<I> as Operator>::m_out(m.0, ctx)),
        )
    }

    open spec fn m_next(m: Self::Model, ctx: SynthContext) -> Self::Model {
        let end = run_state(
            switch_step::<S>(ctx),
            switch_init::<S>(m.1, m.2, ctx),
            with_pos(<Trigger<I> as Operator>::m_out(m.0, ctx)),
        );
        (<Trigger<I> as Operator>::m_next(m.0, ctx), end.0, end.1)
    }

    fn render(&mut self, ctx: &SynthContext) -> (b: Block) {
        let ghost m0 = self.model();
        let ghost sigs0 = self.signals@.map_values(|s: S| s.model());
        let tb = self.trigger.render(ctx);
        let ghost trig1 = self.trigger;
        let ghost trig_out = tb@;
        let n = self.signals.len();
        let mut idx = self.index;
        proof {
            assert(m0.1 == sigs0);
            assert(sigs0[idx as int] == self.signals@[idx as int].model());
            assert(S::m_wf(sigs0[idx as int]));
        }
        let mut active = render_branch(&mut self.signals, idx, ctx);
        let ghost step = switch_step::<S>(*ctx);
        let ghost st0 = switch_init::<S>(sigs0, idx as int, *ctx);
        let ghost ins = with_pos(trig_out);
        proof {
            assert(self.signals@.map_values(|s: S| s.model()) =~= st0.0);
        }
        let ghost mut sigs_m = st0.0;
        let mut samples: Vec<i64> = Vec::new();
        let mut i: usize = 0;
        while i < BLOCK_SIZE
            invariant
                i <= BLOCK_SIZE,
                tb@ == trig_out,
                trig_out.len() == BLOCK_SIZE,
                n == self.signals@.len(),
                n >= 1,
                idx < n,
                self.trigger == trig1,
                ctx_wf(*ctx),
                step == switch_step::<S>(*ctx),
                ins == with_pos(trig_out),
                sigs_m == self.signals@.map_values(|s: S| s.model()),
                (sigs_m, idx as int, active@) == run_state(step, st0, ins.take(i as int)),
                forall|j: int| 0 <= j < n ==> S::m_wf(#[trigger] sigs_m[j]),
                block_wf(active),
                samples@ == run_out(step, st0, ins.take(i as int)),
                samples@.len() == i,
                seq_wf(samples@),
            decreases BLOCK_SIZE - i,
        {
            let t = tb.get(i);
            let ghost pre_sigs = self.signals@.map_values(|s: S| s.model());
            if t >= UNIT {
                idx = (idx + 1) % n;
                proof {
                    assert(sigs_m[idx as int] == self.signals@[idx as int].model());
                    assert(S::m_wf(sigs_m[idx as int]));
                }
                let nb = render_branch(&mut self.signals, idx, ctx);
                proof {
                    assert(self.signals@.map_values(|s: S| s.model()) =~= pre_sigs.update(
                        idx as int,
                        S::m_next(pre_sigs[idx as int], *ctx),
                    ));
                    sigs_m = pre_sigs.update(idx as int, S::m_next(pre_sigs[idx as int], *ctx));
                }
                active = nb;
            }
            let v = active.get(i);
            proof {
                assert(ins.take(i + 1).drop_last() =~= ins.take(i as int));
                assert(ins.take(i + 1).last() == ins[i as int]);
                assert(ins[i as int] == (trig_out[i as int], i as int));
            }
            samples.push(v);
            i += 1;
        }
        proof {
            assert(ins.take(BLOCK_SIZE as int) =~= ins);
        }
        self.index = idx;
        Block::from_samples(samples)
    }
}

/// A memoizing handle around an operator: the first render in a driver
/// tick evaluates the inner operator and caches its block; further
/// renders at the same sample count return the cache and leave every
/// state untouched.
#[derive(Debug)]
pub struct Tap<I> {
    pub input: I,
    pub block: Block,
    pub count: Option<u64>,
}

impl<I: Operator> Tap<I> {
    /// A fresh tap around `input`, with an empty cache.
    pub fn tap(input: I) -> (r: Tap<I>)
        ensures
            r.input == input,
            r.block@ == silence_seq(),
            r.count is None,
    {
        Tap { input, block: Block::silence(), count: None }
    }
}

/// Whether a tap model has already rendered during the tick `ctx` is in.
pub open spec fn tap_seen(count: Option<u64>, ctx: SynthContext) -> bool {
    count == Some(ctx.sample_count)
}

impl<I: Operator> Operator for Tap<I> {
    type Model = (I::Model, Seq<i64>, Option<u64>);

    open spec fn model(self) -> Self::Model {
        (self.input.model(), self.block@, self.count)
    }

    open spec fn m_wf(m: Self::Model) -> bool {
        I::m_wf(m.0) && m.1.len() == BLOCK_SIZE && seq_wf(m.1)
    }

    open spec fn m_out(m: Self::Model, ctx: SynthContext) -> Seq<i64> {
        if tap_seen(m.2, ctx) {
            m.1
        } else {
            I::m_out(m.0, ctx)
        }
    }

    open spec fn m_next(m: Self::Model, ctx: SynthContext) -> Self::Model {
        if tap_seen(m.2, ctx) {
            m
        } else {
            (I::m_next(m.0, ctx), I::m_out(m.0, ctx), Some(ctx.sample_count))
        }
    }

    fn render(&mut self, ctx: &SynthContext) -> (b: Block) {
        let seen = match self.count {
            Some(c) => c == ctx.sample_count(),
            None => false,
        };
        if seen {
            return self.block.clone();
        }
        let b = self.input.render(ctx);
        self.block = b.clone();
        self.count = Some(ctx.sample_count());
        b
    }
}

/// The tap renders its inner operator at most once per tick: a second
/// render at the same sample count changes nothing — not the tap, not
/// the inner operator — and hands out the very same block.
pub proof fn lemma_tap_at_most_once<I: Operator>(
    m: (I::Model, Seq<i64>, Option<u64>),
    ctx: SynthContext,
)
    ensures
        <Tap<I> as Operator>::m_next(<Tap<I> as Operator>::m_next(m, ctx), ctx) == <Tap<
            I,
        > as Operator>::m_next(m, ctx),
        <Tap<I> as Operator>::m_out(<Tap<I> as Operator>::m_next(m, ctx), ctx) == <Tap<
            I,
        > as Operator>::m_out(m, ctx),
{
}

} // verus!
