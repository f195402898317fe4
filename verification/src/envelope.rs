//! The trigger-gated attack/decay envelope: on every rising edge of the
//! trigger input the envelope restarts, ramps linearly from 0 up to one
//! unit over the attack time, back down to 0 over the decay time, and
//! then idles at 0.

use vstd::prelude::*;

use crate::Block;
use crate::Operator;
use crate::SynthContext;
use crate::BLOCK_SIZE;
use crate::UNIT;
use crate::sample_time_spec;
use crate::detect::Trigger;
use crate::detect::TriggerState;
use crate::runner::run_out;
use crate::runner::run_state;
use crate::runner::zip3;
use crate::sample;
use crate::sample::max_s;
use crate::sample::seq_wf;

verus! {

/// The envelope timer never runs past this (it idles once it passes
/// attack plus decay, each at most `SAMPLE_MAX`).
pub const ENV_TIME_CAP: i64 = 0x2_0000_0200;

/// An idle-or-running envelope timer within its cap.
pub open spec fn env_time_wf(t: Option<i64>) -> bool {
    match t {
        Option::None => true,
        Option::Some(v) => 0 <= v <= ENV_TIME_CAP,
    }
}

/// One step of the envelope, fed `(attack, decay, trigger)` samples:
/// a high trigger restarts the timer; a running timer plays a linear
/// ramp up over the attack span, then down over the decay span, then
/// goes idle; an idle envelope emits 0.  Negative spans count as zero.
pub open spec fn ad_step(dt: i64) -> spec_fn(Option<i64>, (i64, i64, i64)) -> (Option<i64>, i64) {
    |st: Option<i64>, x: (i64, i64, i64)|
        {
            let a = max_s(x.0, 0);
            let d = max_s(x.1, 0);
            let st1 = if x.2 >= UNIT {
                Option::Some(0i64)
            } else {
                st
            };
            match st1 {
                Option::None => (Option::None, 0i64),
                Option::Some(t) => {
                    if t < a {
                        (Option::Some((t + dt) as i64), ((UNIT * t) / (a as int)) as i64)
                    } else if t < a + d {
                        (
                            Option::Some((t + dt) as i64),
                            (UNIT - (UNIT * (t - a)) / (d as int)) as i64,
                        )
                    } else {
                        (Option::None, 0i64)
                    }
                },
            }
        }
}

/// The attack/decay envelope over a trigger source and two control
/// inputs for the attack and decay times (fixed-point seconds).
#[derive(Debug, Clone)]
pub struct Ad<A, D, T> {
    pub attack: A,
    pub decay: D,
    pub trigger: Trigger<T>,
    pub time: Option<i64>,
}

/// Wrap `trigger` in an edge detector and gate an attack/decay envelope
/// with it.
pub fn ad<A: Operator, D: Operator, T: Operator>(trigger: T, attack: A, decay: D) -> (r: Ad<
    A,
    D,
    T,
>)
    ensures
        r.attack == attack,
        r.decay == decay,
        r.trigger == (Trigger { input: trigger, previous_sample: TriggerState::Low }),
        r.time is None,
{
    Ad {
        attack,
        decay,
        trigger: Trigger { input: trigger, previous_sample: TriggerState::Low },
        time: None,
    }
}

impl<A: Operator, D: Operator, T: Operator> Operator for Ad<A, D, T> {
    type Model = (A::Model, D::Model, (T::Model, TriggerState), Option<i64>);

    open spec fn model(self) -> Self::Model {
        (self.attack.model(), self.decay.model(), self.trigger.model(), self.time)
    }

    open spec fn m_wf(m: Self::Model) -> bool {
        A::m_wf(m.0) && D::m_wf(m.1) && T::m_wf(m.2.0) && env_time_wf(m.3)
    }

    open spec fn m_out(m: Self::Model, ctx: SynthContext) -> Seq<i64> {
        run_out(
            ad_step(sample_time_spec(ctx)),
            m.3,
            zip3(
                A::m_out(m.0, ctx),
                D::m_out(m.1, ctx),
                <Trigger<T> as Operator>::m_out(m.2, ctx),
            ),
        )
    }

    open spec fn m_next(m: Self::Model, ctx: SynthContext) -> Self::Model {
        (
            A::m_next(m.0, ctx),
            D::m_next(m.1, ctx),
            <Trigger<T> as Operator>::m_next(m.2, ctx),
            run_state(
                ad_step(sample_time_spec(ctx)),
                m.3,
                zip3(
                    A::m_out(m.0, ctx),
                    D::m_out(m.1, ctx),
                    <Trigger<T> as Operator>::m_out(m.2, ctx),
                ),
            ),
        )
    }

    fn render(&mut self, ctx: &SynthContext) -> (b: Block) {
        let attb = self.attack.render(ctx);
        let decb = self.decay.render(ctx);
        let trigb = self.trigger.render(ctx);
        let dt = ctx.sample_time();
        let ghost step = ad_step(dt);
        let ghost ins = zip3(attb@, decb@, trigb@);
        let ghost s0 = self.time;
        let mut st = self.time;
        let mut samples: Vec<i64> = Vec::new();
        let mut i: usize = 0;
        while i < BLOCK_SIZE
            invariant
                i <= BLOCK_SIZE,
                attb@.len() == BLOCK_SIZE,
                decb@.len() == BLOCK_SIZE,
                trigb@.len() == BLOCK_SIZE,
                seq_wf(attb@),
                seq_wf(decb@),
                2 <= dt <= 60,
                ins == zip3(attb@, decb@, trigb@),
                step == ad_step(dt),
                env_time_wf(st),
                st == run_state(step, s0, ins.take(i as int)),
                samples@ == run_out(step, s0, ins.take(i as int)),
                samples@.len() == i,
                seq_wf(samples@),
            decreases BLOCK_SIZE - i,
        {
            let ax = attb.get(i);
            let dx = decb.get(i);
            let tx = trigb.get(i);
            let a = if ax >= 0 {
                ax
            } else {
                0
            };
            let d = if dx >= 0 {
                dx
            } else {
                0
            };
            let st1: Option<i64> = if tx >= UNIT {
                Some(0)
            } else {
                st
            };
            let (st2, v): (Option<i64>, i64) = match st1 {
                None => (None, 0),
                Some(t) => {
                    if t < a {
                        (Some(t + dt), sample::ramp_ratio(t, a))
                    } else if t < a + d {
                        (Some(t + dt), UNIT - sample::ramp_ratio(t - a, d))
                    } else {
                        (None, 0)
                    }
                },
            };
            proof {
                assert(ins.take(i + 1).drop_last() =~= ins.take(i as int));
                assert(ins.take(i + 1).last() == ins[i as int]);
                assert(ins[i as int] == (attb@[i as int], decb@[i as int], trigb@[i as int]));
                assert(step(st, ins[i as int]) == (st2, v));
            }
            samples.push(v);
            st = st2;
            i += 1;
        }
        proof {
            assert(ins.take(BLOCK_SIZE as int) =~= ins);
        }
        self.time = st;
        Block::from_samples(samples)
    }
}

} // verus!
