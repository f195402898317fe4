//! The sink boundary: a sink owns an input operator and a block
//! consumer.  Rendering a sink pulls one block from the input, hands it
//! to the consumer, and yields silence (a sink is itself an operator, so
//! it can stand in a graph).  What a consumer does with the block is its
//! own affair; the library ships one verified consumer that collects
//! samples in memory.

use vstd::prelude::*;

use crate::Block;
use crate::Operator;
use crate::SynthContext;
use crate::BLOCK_SIZE;
use crate::MAX_SAMPLE_COUNT;
use crate::block_wf;
use crate::ctx_wf;
use crate::silence_seq;

verus! {

/// A consumer of finished blocks.
pub trait AudioOut {
    /// Accept one block.
    fn write(&mut self, input: Block)
        requires
            block_wf(input),
    ;
}

/// A consumer that appends every sample it is handed to a vector.
pub struct MemoryOut {
    pub samples: Vec<i64>,
}

impl MemoryOut {
    /// An empty in-memory consumer.
    pub fn new() -> (r: MemoryOut)
        ensures
            r.samples@ == Seq::<i64>::empty(),
    {
        MemoryOut { samples: Vec::new() }
    }
}

impl AudioOut for MemoryOut {
    fn write(&mut self, input: Block)
        ensures
            final(self).samples@ == old(self).samples@ + input@,
    {
        let mut i: usize = 0;
        let n = input.samples().len();
        while i < n
            invariant
                i <= n,
                n == input@.len(),
                self.samples@ == old(self).samples@ + input@.take(i as int),
            decreases n - i,
        {
            let s = input.get(i);
            self.samples.push(s);
            proof {
                assert(old(self).samples@ + input@.take(i as int + 1) =~= (old(self).samples@
                    + input@.take(i as int)).push(input@[i as int]));
            }
            i += 1;
        }
        proof {
            assert(input@.take(n as int) =~= input@);
        }
    }
}

/// A sink: an input operator wired to a block consumer.
pub struct Sink<I, O> {
    pub input: I,
    pub inner: O,
}

impl<I: Operator, O: AudioOut> Sink<I, O> {
    /// Wire `input` to `output`.
    pub fn new(input: I, output: O) -> (r: Sink<I, O>)
        ensures
            r.input == input,
            r.inner == output,
    {
        Sink { input, inner: output }
    }
}

impl<I: Operator, O: AudioOut> Operator for Sink<I, O> {
    type Model = I::Model;

    open spec fn model(self) -> Self::Model {
        self.input.model()
    }

    open spec fn m_wf(m: Self::Model) -> bool {
        I::m_wf(m)
    }

    open spec fn m_out(m: Self::Model, ctx: SynthContext) -> Seq<i64> {
        silence_seq()
    }

    open spec fn m_next(m: Self::Model, ctx: SynthContext) -> Self::Model {
        I::m_next(m, ctx)
    }

    fn render(&mut self, ctx: &SynthContext) -> (b: Block) {
        let blk = self.input.render(ctx);
        self.inner.write(blk);
        Block::silence()
    }
}

impl SynthContext {
    /// One driver tick: render the sink, then advance the sample counter
    /// by one block, so every node observes a consistent block boundary.
    pub fn render_to_sink<I: Operator, O: AudioOut>(&mut self, sink: &mut Sink<I, O>)
        requires
            ctx_wf(*old(self)),
            old(self).sample_count + BLOCK_SIZE <= MAX_SAMPLE_COUNT,
            I::m_wf(old(sink).model()),
        ensures
            final(self).sample_rate == old(self).sample_rate,
            final(self).sample_count == old(self).sample_count + BLOCK_SIZE,
            ctx_wf(*final(self)),
            final(sink).model() == <Sink<I, O> as Operator>::m_next(
                old(sink).model(),
                *old(self),
            ),
            I::m_wf(final(sink).model()),
    {
        let _ = sink.render(&*self);
        self.update();
    }
}

} // verus!
