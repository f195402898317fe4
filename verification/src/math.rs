//! Pointwise arithmetic operators: add, subtract, multiply, min, max,
//! absolute value, inversion, symmetric clip, and the mix alias.
//!
//! Each operator renders both children to full blocks and then combines
//! them sample by sample; there is no short-circuiting.

use vstd::prelude::*;

use crate::Block;
use crate::Operator;
use crate::SynthContext;
use crate::BLOCK_SIZE;
use crate::block_wf;
use crate::silence_seq;
use crate::sample::BinOp;
use crate::sample::UnOp;
use crate::sample::bin_apply;
use crate::sample::bin_apply_x;
use crate::sample::sample_wf;
use crate::sample::seq_bin;
use crate::sample::seq_un;
use crate::sample::seq_wf;
use crate::sample::un_apply;
use crate::sample::un_apply_x;
use crate::sources::Const;
use crate::sources::Silence;

verus! {

/// Combine two blocks pointwise under `op`.
pub fn bin_block(op: BinOp, a: &Block, b: &Block) -> (r: Block)
    requires
        block_wf(*a),
        block_wf(*b),
    ensures
        r@ == seq_bin(op, a@, b@),
        block_wf(r),
{
    let mut samples: Vec<i64> = Vec::new();
    let mut i: usize = 0;
    while i < BLOCK_SIZE
        invariant
            i <= BLOCK_SIZE,
            block_wf(*a),
            block_wf(*b),
            samples@.len() == i,
            forall|j: int|
                0 <= j < i ==> samples@[j] == bin_apply(op, a@[j], b@[j]) && sample_wf(
                    #[trigger] samples@[j],
                ),
        decreases BLOCK_SIZE - i,
    {
        let x = a.get(i);
        let y = b.get(i);
        let v = bin_apply_x(op, x, y);
        samples.push(v);
        i += 1;
    }
    proof {
        assert(samples@ =~= seq_bin(op, a@, b@));
    }
    Block::from_samples(samples)
}

/// Map a block pointwise under `op`.
pub fn un_block(op: UnOp, a: &Block) -> (r: Block)
    requires
        block_wf(*a),
    ensures
        r@ == seq_un(op, a@),
        block_wf(r),
{
    let mut samples: Vec<i64> = Vec::new();
    let mut i: usize = 0;
    while i < BLOCK_SIZE
        invariant
            i <= BLOCK_SIZE,
            block_wf(*a),
            samples@.len() == i,
            forall|j: int|
                0 <= j < i ==> samples@[j] == un_apply(op, a@[j]) && sample_wf(
                    #[trigger] samples@[j],
                ),
        decreases BLOCK_SIZE - i,
    {
        let x = a.get(i);
        let v = un_apply_x(op, x);
        samples.push(v);
        i += 1;
    }
    proof {
        assert(samples@ =~= seq_un(op, a@));
    }
    Block::from_samples(samples)
}

/// Per-sample saturating sum of two signals.
#[derive(Debug, Clone)]
pub struct Add<Lhs, Rhs> {
    pub lhs: Lhs,
    pub rhs: Rhs,
}

impl<Lhs: Operator, Rhs: Operator> Operator for Add<Lhs, Rhs> {
    type Model = (Lhs::Model, Rhs::Model);

    open spec fn model(self) -> Self::Model {
        (self.lhs.model(), self.rhs.model())
    }

    open spec fn m_wf(m: Self::Model) -> bool {
        Lhs::m_wf(m.0) && Rhs::m_wf(m.1)
    }

    open spec fn m_out(m: Self::Model, ctx: SynthContext) -> Seq<i64> {
        seq_bin(BinOp::Plus, Lhs::m_out(m.0, ctx), Rhs::m_out(m.1, ctx))
    }

    open spec fn m_next(m: Self::Model, ctx: SynthContext) -> Self::Model {
        (Lhs::m_next(m.0, ctx), Rhs::m_next(m.1, ctx))
    }

    fn render(&mut self, ctx: &SynthContext) -> (b: Block) {
        let a = self.lhs.render(ctx);
        let c = self.rhs.render(ctx);
        bin_block(BinOp::Plus, &a, &c)
    }
}

/// Per-sample saturating difference of two signals.
#[derive(Debug, Clone)]
pub struct Sub<Lhs, Rhs> {
    pub lhs: Lhs,
    pub rhs: Rhs,
}

impl<Lhs: Operator, Rhs: Operator> Operator for Sub<Lhs, Rhs> {
    type Model = (Lhs::Model, Rhs::Model);

    open spec fn model(self) -> Self::Model {
        (self.lhs.model(), self.rhs.model())
    }

    open spec fn m_wf(m: Self::Model) -> bool {
        Lhs::m_wf(m.0) && Rhs::m_wf(m.1)
    }

    open spec fn m_out(m: Self::Model, ctx: SynthContext) -> Seq<i64> {
        seq_bin(BinOp::Minus, Lhs::m_out(m.0, ctx), Rhs::m_out(m.1, ctx))
    }

    open spec fn m_next(m: Self::Model, ctx: SynthContext) -> Self::Model {
        (Lhs::m_next(m.0, ctx), Rhs::m_next(m.1, ctx))
    }

    fn render(&mut self, ctx: &SynthContext) -> (b: Block) {
        let a = self.lhs.render(ctx);
        let c = self.rhs.render(ctx);
        bin_block(BinOp::Minus, &a, &c)
    }
}

/// Per-sample saturating fixed-point product of two signals.
#[derive(Debug, Clone)]
pub struct Mul<Lhs, Rhs> {
    pub lhs: Lhs,
    pub rhs: Rhs,
}

impl<Lhs: Operator, Rhs: Operator> Operator for Mul<Lhs, Rhs> {
    type Model = (Lhs::Model, Rhs::Model);

    open spec fn model(self) -> Self::Model {
        (self.lhs.model(), self.rhs.model())
    }

    open spec fn m_wf(m: Self::Model) -> bool {
        Lhs::m_wf(m.0) && Rhs::m_wf(m.1)
    }

    open spec fn m_out(m: Self::Model, ctx: SynthContext) -> Seq<i64> {
        seq_bin(BinOp::Times, Lhs::m_out(m.0, ctx), Rhs::m_out(m.1, ctx))
    }

    open spec fn m_next(m: Self::Model, ctx: SynthContext) -> Self::Model {
        (Lhs::m_next(m.0, ctx), Rhs::m_next(m.1, ctx))
    }

    fn render(&mut self, ctx: &SynthContext) -> (b: Block) {
        let a = self.lhs.render(ctx);
        let c = self.rhs.render(ctx);
        bin_block(BinOp::Times, &a, &c)
    }
}

/// Mixing is addition of a level-scaled signal.
pub type Mix<Lhs, Rhs, Cv> = Add<Lhs, Mul<Rhs, Cv>>;

/// Per-sample lane minimum.
#[derive(Debug, Clone)]
pub struct Min<Lhs, Rhs> {
    pub lhs: Lhs,
    pub rhs: Rhs,
}

impl<Lhs: Operator, Rhs: Operator> Operator for Min<Lhs, Rhs> {
    type Model = (Lhs::Model, Rhs::Model);

    open spec fn model(self) -> Self::Model {
        (self.lhs.model(), self.rhs.model())
    }

    open spec fn m_wf(m: Self::Model) -> bool {
        Lhs::m_wf(m.0) && Rhs::m_wf(m.1)
    }

    open spec fn m_out(m: Self::Model, ctx: SynthContext) -> Seq<i64> {
        seq_bin(BinOp::Low, Lhs::m_out(m.0, ctx), Rhs::m_out(m.1, ctx))
    }

    open spec fn m_next(m: Self::Model, ctx: SynthContext) -> Self::Model {
        (Lhs::m_next(m.0, ctx), Rhs::m_next(m.1, ctx))
    }

    fn render(&mut self, ctx: &SynthContext) -> (b: Block) {
        let a = self.lhs.render(ctx);
        let c = self.rhs.render(ctx);
        bin_block(BinOp::Low, &a, &c)
    }
}

/// Per-sample lane maximum.
#[derive(Debug, Clone)]
pub struct Max<Lhs, Rhs> {
    pub lhs: Lhs,
    pub rhs: Rhs,
}

impl<Lhs: Operator, Rhs: Operator> Operator for Max<Lhs, Rhs> {
    type Model = (Lhs::Model, Rhs::Model);

    open spec fn model(self) -> Self::Model {
        (self.lhs.model(), self.rhs.model())
    }

    open spec fn m_wf(m: Self::Model) -> bool {
        Lhs::m_wf(m.0) && Rhs::m_wf(m.1)
    }

    open spec fn m_out(m: Self::Model, ctx: SynthContext) -> Seq<i64> {
        seq_bin(BinOp::High, Lhs::m_out(m.0, ctx), Rhs::m_out(m.1, ctx))
    }

    open spec fn m_next(m: Self::Model, ctx: SynthContext) -> Self::Model {
        (Lhs::m_next(m.0, ctx), Rhs::m_next(m.1, ctx))
    }

    fn render(&mut self, ctx: &SynthContext) -> (b: Block) {
        let a = self.lhs.render(ctx);
        let c = self.rhs.render(ctx);
        bin_block(BinOp::High, &a, &c)
    }
}

/// Per-sample absolute value.
#[derive(Debug, Clone)]
pub struct Abs<I> {
    pub input: I,
}

impl<I: Operator> Operator for Abs<I> {
    type Model = I::Model;

    open spec fn model(self) -> Self::Model {
        self.input.model()
    }

    open spec fn m_wf(m: Self::Model) -> bool {
        I::m_wf(m)
    }

    open spec fn m_out(m: Self::Model, ctx: SynthContext) -> Seq<i64> {
        seq_un(UnOp::Mag, I::m_out(m, ctx))
    }

    open spec fn m_next(m: Self::Model, ctx: SynthContext) -> Self::Model {
        I::m_next(m, ctx)
    }

    fn render(&mut self, ctx: &SynthContext) -> (b: Block) {
        let a = self.input.render(ctx);
        un_block(UnOp::Mag, &a)
    }
}

/// Per-sample negation.
#[derive(Debug, Clone)]
pub struct Invert<I> {
    pub input: I,
}

impl<I: Operator> Operator for Invert<I> {
    type Model = I::Model;

    open spec fn model(self) -> Self::Model {
        self.input.model()
    }

    open spec fn m_wf(m: Self::Model) -> bool {
        I::m_wf(m)
    }

    open spec fn m_out(m: Self::Model, ctx: SynthContext) -> Seq<i64> {
        seq_un(UnOp::Neg, I::m_out(m, ctx))
    }

    open spec fn m_next(m: Self::Model, ctx: SynthContext) -> Self::Model {
        I::m_next(m, ctx)
    }

    fn render(&mut self, ctx: &SynthContext) -> (b: Block) {
        let a = self.input.render(ctx);
        un_block(UnOp::Neg, &a)
    }
}

/// Per-sample symmetric clamp of `input` to the magnitude of `level`.
#[derive(Debug, Clone)]
pub struct Clip<I, Cv> {
    pub input: I,
    pub level: Cv,
}

impl<I: Operator, Cv: Operator> Operator for Clip<I, Cv> {
    type Model = (I::Model, Cv::Model);

    open spec fn model(self) -> Self::Model {
        (self.input.model(), self.level.model())
    }

    open spec fn m_wf(m: Self::Model) -> bool {
        I::m_wf(m.0) && Cv::m_wf(m.1)
    }

    open spec fn m_out(m: Self::Model, ctx: SynthContext) -> Seq<i64> {
        seq_bin(BinOp::Clamp, I::m_out(m.0, ctx), Cv::m_out(m.1, ctx))
    }

    open spec fn m_next(m: Self::Model, ctx: SynthContext) -> Self::Model {
        (I::m_next(m.0, ctx), Cv::m_next(m.1, ctx))
    }

    fn render(&mut self, ctx: &SynthContext) -> (b: Block) {
        let a = self.input.render(ctx);
        let c = self.level.render(ctx);
        bin_block(BinOp::Clamp, &a, &c)
    }
}

/// Silence is absorbing for multiplication: whatever an operator renders,
/// multiplying it by silence renders the zero block.
pub proof fn lemma_mul_silence_absorbing<O: Operator>(m: O::Model, ctx: SynthContext)
    requires
        O::m_out(m, ctx).len() == BLOCK_SIZE,
    ensures
        <Mul<O, Silence> as Operator>::m_out((m, ()), ctx) == silence_seq(),
{
    let s = <Mul<O, Silence> as Operator>::m_out((m, ()), ctx);
    assert forall|i: int| 0 <= i < BLOCK_SIZE implies s[i] == 0i64 by {
        assert(O::m_out(m, ctx)[i] * 0 == 0);
    }
    assert(s =~= silence_seq());
}

/// A level of zero turns mix into the identity: mixing any second signal
/// in at level zero leaves the first signal's block unchanged.
pub proof fn lemma_mix_level_zero_unit<O: Operator, X: Operator>(
    mo: O::Model,
    mx: X::Model,
    ctx: SynthContext,
)
    requires
        O::m_out(mo, ctx).len() == BLOCK_SIZE,
        X::m_out(mx, ctx).len() == BLOCK_SIZE,
        seq_wf(O::m_out(mo, ctx)),
    ensures
        <Mix<O, X, Const> as Operator>::m_out((mo, (mx, 0i64)), ctx) == O::m_out(mo, ctx),
{
    let s = <Mix<O, X, Const> as Operator>::m_out((mo, (mx, 0i64)), ctx);
    assert forall|i: int| 0 <= i < BLOCK_SIZE implies s[i] == O::m_out(mo, ctx)[i] by {
        assert(X::m_out(mx, ctx)[i] * 0 == 0);
    }
    assert(s =~= O::m_out(mo, ctx));
}

} // verus!
