//! A fixed-length delay line: a FIFO of `length` samples.  Until the
//! FIFO has filled (the warm-up), the output is silence; afterwards each
//! output sample is the input from `length` samples ago.  A length of
//! zero passes the input through unchanged.

use vstd::prelude::*;

use std::collections::VecDeque;

use crate::Block;
use crate::Operator;
use crate::SynthContext;
use crate::SynthError;
use crate::MAX_SAMPLE_RATE;
use crate::MIN_SAMPLE_RATE;
use crate::BLOCK_SIZE;
use crate::UNIT;
use crate::runner::run_out;
use crate::runner::run_state;
use crate::sample::seq_wf;

verus! {

/// Longest expressible delay time, fixed-point seconds (one hour).
pub const MAX_DELAY_TIME: i64 = 1728000000;

/// Cap on the delay line's length in samples (memory, not semantics).
pub const MAX_DELAY_SAMPLES: usize = 4194304;

/// The delay length in samples: `time * rate / UNIT`, rounded to nearest.
pub open spec fn delay_len(time: i64, rate: u32) -> int {
    (time * rate + UNIT / 2) / (UNIT as int)
}

/// One step of the delay line: with the FIFO full, the front sample
/// leaves as output; otherwise silence comes out.  The input sample
/// always enters at the back.  A zero-length line passes through.
pub open spec fn delay_step(len: nat) -> spec_fn(Seq<i64>, i64) -> (Seq<i64>, i64) {
    |buf: Seq<i64>, x: i64|
        if len == 0 {
            (buf, x)
        } else if buf.len() == len {
            (buf.drop_first().push(x), buf[0])
        } else {
            (buf.push(x), 0i64)
        }
}

/// A fixed-length delay line over an input operator.
#[derive(Debug, Clone)]
pub struct Delay<I> {
    pub input: I,
    pub length: usize,
    pub buffer: VecDeque<i64>,
}

impl<I: Operator> Delay<I> {
    /// A delay of `time` fixed-point seconds at the given sample rate.
    /// Rejects negative times, times beyond `MAX_DELAY_TIME`, and
    /// lengths beyond `MAX_DELAY_SAMPLES`.
    pub fn delay(input: I, time: i64, sample_rate: u32) -> (r: Result<Delay<I>, SynthError>)
        requires
            MIN_SAMPLE_RATE <= sample_rate <= MAX_SAMPLE_RATE,
        ensures
            (0 <= time <= MAX_DELAY_TIME && delay_len(time, sample_rate) <= MAX_DELAY_SAMPLES)
                <==> r is Ok,
            r matches Ok(d) ==> d.input == input && d.length == delay_len(time, sample_rate)
                && d.buffer@ == Seq::<i64>::empty(),
            r matches Err(e) ==> e == SynthError::InvalidParameter,
    {
        if time < 0 || time > MAX_DELAY_TIME {
            return Err(SynthError::InvalidParameter);
        }
        proof {
            assert(0 <= time * sample_rate <= 331776000000000) by (nonlinear_arith)
                requires
                    0 <= time <= 1728000000,
                    0 <= sample_rate <= 192000,
            ;
            vstd::arithmetic::div_mod::lemma_div_pos_is_pos(
                time * sample_rate + UNIT / 2,
                UNIT as int,
            );
        }
        let n = ((time as u64) * (sample_rate as u64) + ((UNIT / 2) as u64)) / (UNIT as u64);
        if n > (MAX_DELAY_SAMPLES as u64) {
            return Err(SynthError::InvalidParameter);
        }
        let length = n as usize;
        Ok(Delay { input, length, buffer: VecDeque::with_capacity(length) })
    }
}

impl<I: Operator> Operator for Delay<I> {
    type Model = (I::Model, nat, Seq<i64>);

    open spec fn model(self) -> Self::Model {
        (self.input.model(), self.length as nat, self.buffer@)
    }

    open spec fn m_wf(m: Self::Model) -> bool {
        I::m_wf(m.0) && m.2.len() <= m.1 && m.1 <= MAX_DELAY_SAMPLES && seq_wf(m.2)
    }

    open spec fn m_out(m: Self::Model, ctx: SynthContext) -> Seq<i64> {
        run_out(delay_step(m.1), m.2, I::m_out(m.0, ctx))
    }

    open spec fn m_next(m: Self::Model, ctx: SynthContext) -> Self::Model {
        (I::m_next(m.0, ctx), m.1, run_state(delay_step(m.1), m.2, I::m_out(m.0, ctx)))
    }

    fn render(&mut self, ctx: &SynthContext) -> (b: Block) {
        let inb = self.input.render(ctx);
        let length = self.length;
        let ghost step = delay_step(length as nat);
        let ghost ins = inb@;
        let ghost b0 = self.buffer@;
        let ghost inp1 = self.input;
        let mut samples: Vec<i64> = Vec::new();
        let mut i: usize = 0;
        while i < BLOCK_SIZE
            invariant
                i <= BLOCK_SIZE,
                inb@ == ins,
                ins.len() == BLOCK_SIZE,
                seq_wf(ins),
                length == self.length,
                length <= MAX_DELAY_SAMPLES,
                self.input == inp1,
                I::m_wf(inp1.model()),
                step == delay_step(length as nat),
                self.buffer@ == run_state(step, b0, ins.take(i as int)),
                self.buffer@.len() <= length,
                seq_wf(self.buffer@),
                samples@ == run_out(step, b0, ins.take(i as int)),
                samples@.len() == i,
                seq_wf(samples@),
            decreases BLOCK_SIZE - i,
        {
            let x = inb.get(i);
            let v: i64;
            if length == 0 {
                v = x;
            } else if self.buffer.len() == length {
                let front = self.buffer.pop_front();
                v = match front {
                    Some(s) => s,
                    None => 0,
                };
                self.buffer.push_back(x);
            } else {
                v = 0;
                self.buffer.push_back(x);
            }
            proof {
                assert(ins.take(i + 1).drop_last() =~= ins.take(i as int));
                assert(ins.take(i + 1).last() == ins[i as int]);
            }
            samples.push(v);
            i += 1;
        }
        proof {
            assert(ins.take(BLOCK_SIZE as int) =~= ins);
        }
        Block::from_samples(samples)
    }
}

/// What comes out of the delay line, sample by sample: nothing but
/// zeros until the line (pre-filled with `b0`) has warmed up, then the
/// history — first the remainder of `b0`, then the inputs — delayed by
/// exactly `len` samples.  A zero-length line is the identity.
pub proof fn lemma_delay_characterization(len: nat, b0: Seq<i64>, ins: Seq<i64>)
    requires
        b0.len() <= len,
    ensures
        run_out(delay_step(len), b0, ins).len() == ins.len(),
        forall|i: int|
            0 <= i < ins.len() ==> #[trigger] run_out(delay_step(len), b0, ins)[i] == (if len == 0 {
                ins[i]
            } else if b0.len() + i >= len {
                (b0 + ins)[b0.len() + i - len]
            } else {
                0i64
            }),
        run_state(delay_step(len), b0, ins) == (if len == 0 {
            b0
        } else if b0.len() + ins.len() <= len {
            b0 + ins
        } else {
            (b0 + ins).skip(b0.len() + ins.len() - len)
        }),
    decreases ins.len(),
{
    let step = delay_step(len);
    crate::runner::lemma_run_out_len(step, b0, ins);
    if ins.len() == 0 {
        assert(b0 + ins =~= b0);
    } else {
        lemma_delay_characterization(len, b0, ins.drop_last());
        crate::runner::lemma_run_out_len(step, b0, ins.drop_last());
        let pre = ins.drop_last();
        let x = ins.last();
        let st = run_state(step, b0, pre);
        assert(b0 + pre =~= (b0 + ins).take(b0.len() + ins.len() - 1));
        if len == 0 {
        } else if b0.len() + pre.len() <= len {
            assert(st == b0 + pre);
            if st.len() == len {
                assert(st.drop_first().push(x) =~= (b0 + ins).skip(1));
                assert(st[0] == (b0 + ins)[0]);
            } else {
                assert(st.push(x) =~= b0 + ins);
            }
        } else {
            let total = b0.len() + ins.len();
            assert(st == (b0 + pre).skip(b0.len() + pre.len() - len));
            assert(st.len() == len);
            assert(st.drop_first().push(x) =~= (b0 + ins).skip(total - len));
            assert(st[0] == (b0 + ins)[total - 1 - len]);
        }
        assert(forall|i: int|
            0 <= i < ins.len() - 1 ==> #[trigger] run_out(step, b0, ins)[i] == run_out(
                step,
                b0,
                pre,
            )[i]);
        assert(forall|i: int|
            0 <= i < pre.len() ==> #[trigger] pre[i] == ins[i]);
        assert(forall|i: int|
            0 <= i < b0.len() + pre.len() ==> #[trigger] (b0 + pre)[i] == (b0 + ins)[i]);
    }
}

} // verus!
