//! Per-sample comparators.  Each emits `UNIT` (true) or 0 (false) per lane,
//! comparing its two inputs pointwise.

use vstd::prelude::*;

use crate::Block;
use crate::Operator;
use crate::SynthContext;
use crate::math::bin_block;
use crate::sample::BinOp;
use crate::sample::seq_bin;

verus! {

/// Emits `UNIT` where `lhs > rhs`, 0 elsewhere.
#[derive(Debug, Clone)]
pub struct GreaterThan<Lhs, Rhs> {
    pub lhs: Lhs,
    pub rhs: Rhs,
}

impl<Lhs: Operator, Rhs: Operator> Operator for GreaterThan<Lhs, Rhs> {
    type Model = (Lhs::Model, Rhs::Model);

    open spec fn model(self) -> Self::Model {
        (self.lhs.model(), self.rhs.model())
    }

    open spec fn m_wf(m: Self::Model) -> bool {
        Lhs::m_wf(m.0) && Rhs::m_wf(m.1)
    }

    open spec fn m_out(m: Self::Model, ctx: SynthContext) -> Seq<i64> {
        seq_bin(BinOp::Gt, Lhs::m_out(m.0, ctx), Rhs::m_out(m.1, ctx))
    }

    open spec fn m_next(m: Self::Model, ctx: SynthContext) -> Self::Model {
        (Lhs::m_next(m.0, ctx), Rhs::m_next(m.1, ctx))
    }

    fn render(&mut self, ctx: &SynthContext) -> (b: Block) {
        let a = self.lhs.render(ctx);
        let c = self.rhs.render(ctx);
        bin_block(BinOp::Gt, &a, &c)
    }
}

/// Emits `UNIT` where `lhs >= rhs`, 0 elsewhere.
#[derive(Debug, Clone)]
pub struct GreaterThanOrEqualTo<Lhs, Rhs> {
    pub lhs: Lhs,
    pub rhs: Rhs,
}

impl<Lhs: Operator, Rhs: Operator> Operator for GreaterThanOrEqualTo<Lhs, Rhs> {
    type Model = (Lhs::Model, Rhs::Model);

    open spec fn model(self) -> Self::Model {
        (self.lhs.model(), self.rhs.model())
    }

    open spec fn m_wf(m: Self::Model) -> bool {
        Lhs::m_wf(m.0) && Rhs::m_wf(m.1)
    }

    open spec fn m_out(m: Self::Model, ctx: SynthContext) -> Seq<i64> {
        seq_bin(BinOp::Ge, Lhs::m_out(m.0, ctx), Rhs::m_out(m.1, ctx))
    }

    open spec fn m_next(m: Self::Model, ctx: SynthContext) -> Self::Model {
        (Lhs::m_next(m.0, ctx), Rhs::m_next(m.1, ctx))
    }

    fn render(&mut self, ctx: &SynthContext) -> (b: Block) {
        let a = self.lhs.render(ctx);
        let c = self.rhs.render(ctx);
        bin_block(BinOp::Ge, &a, &c)
    }
}

/// Emits `UNIT` where `lhs < rhs`, 0 elsewhere.
#[derive(Debug, Clone)]
pub struct LessThan<Lhs, Rhs> {
    pub lhs: Lhs,
    pub rhs: Rhs,
}

impl<Lhs: Operator, Rhs: Operator> Operator for LessThan<Lhs, Rhs> {
    type Model = (Lhs::Model, Rhs::Model);

    open spec fn model(self) -> Self::Model {
        (self.lhs.model(), self.rhs.model())
    }

    open spec fn m_wf(m: Self::Model) -> bool {
        Lhs::m_wf(m.0) && Rhs::m_wf(m.1)
    }

    open spec fn m_out(m: Self::Model, ctx: SynthContext) -> Seq<i64> {
        seq_bin(BinOp::Lt, Lhs::m_out(m.0, ctx), Rhs::m_out(m.1, ctx))
    }

    open spec fn m_next(m: Self::Model, ctx: SynthContext) -> Self::Model {
        (Lhs::m_next(m.0, ctx), Rhs::m_next(m.1, ctx))
    }

    fn render(&mut self, ctx: &SynthContext) -> (b: Block) {
        let a = self.lhs.render(ctx);
        let c = self.rhs.render(ctx);
        bin_block(BinOp::Lt, &a, &c)
    }
}

/// Emits `UNIT` where `lhs <= rhs`, 0 elsewhere.
#[derive(Debug, Clone)]
pub struct LessThanOrEqualTo<Lhs, Rhs> {
    pub lhs: Lhs,
    pub rhs: Rhs,
}

impl<Lhs: Operator, Rhs: Operator> Operator for LessThanOrEqualTo<Lhs, Rhs> {
    type Model = (Lhs::Model, Rhs::Model);

    open spec fn model(self) -> Self::Model {
        (self.lhs.model(), self.rhs.model())
    }

    open spec fn m_wf(m: Self::Model) -> bool {
        Lhs::m_wf(m.0) && Rhs::m_wf(m.1)
    }

    open spec fn m_out(m: Self::Model, ctx: SynthContext) -> Seq<i64> {
        seq_bin(BinOp::Le, Lhs::m_out(m.0, ctx), Rhs::m_out(m.1, ctx))
    }

    open spec fn m_next(m: Self::Model, ctx: SynthContext) -> Self::Model {
        (Lhs::m_next(m.0, ctx), Rhs::m_next(m.1, ctx))
    }

    fn render(&mut self, ctx: &SynthContext) -> (b: Block) {
        let a = self.lhs.render(ctx);
        let c = self.rhs.render(ctx);
        bin_block(BinOp::Le, &a, &c)
    }
}

/// Emits `UNIT` where `lhs == rhs`, 0 elsewhere.
#[derive(Debug, Clone)]
pub struct EqualTo<Lhs, Rhs> {
    pub lhs: Lhs,
    pub rhs: Rhs,
}

impl<Lhs: Operator, Rhs: Operator> Operator for EqualTo<Lhs, Rhs> {
    type Model = (Lhs::Model, Rhs::Model);

    open spec fn model(self) -> Self::Model {
        (self.lhs.model(), self.rhs.model())
    }

    open spec fn m_wf(m: Self::Model) -> bool {
        Lhs::m_wf(m.0) && Rhs::m_wf(m.1)
    }

    open spec fn m_out(m: Self::Model, ctx: SynthContext) -> Seq<i64> {
        seq_bin(BinOp::EqTo, Lhs::m_out(m.0, ctx), Rhs::m_out(m.1, ctx))
    }

    open spec fn m_next(m: Self::Model, ctx: SynthContext) -> Self::Model {
        (Lhs::m_next(m.0, ctx), Rhs::m_next(m.1, ctx))
    }

    fn render(&mut self, ctx: &SynthContext) -> (b: Block) {
        let a = self.lhs.render(ctx);
        let c = self.rhs.render(ctx);
        bin_block(BinOp::EqTo, &a, &c)
    }
}

/// Emits `UNIT` where `lhs != rhs`, 0 elsewhere.
#[derive(Debug, Clone)]
pub struct NotEqualTo<Lhs, Rhs> {
    pub lhs: Lhs,
    pub rhs: Rhs,
}

impl<Lhs: Operator, Rhs: Operator> Operator for NotEqualTo<Lhs, Rhs> {
    type Model = (Lhs::Model, Rhs::Model);

    open spec fn model(self) -> Self::Model {
        (self.lhs.model(), self.rhs.model())
    }

    open spec fn m_wf(m: Self::Model) -> bool {
        Lhs::m_wf(m.0) && Rhs::m_wf(m.1)
    }

    open spec fn m_out(m: Self::Model, ctx: SynthContext) -> Seq<i64> {
        seq_bin(BinOp::NeTo, Lhs::m_out(m.0, ctx), Rhs::m_out(m.1, ctx))
    }

    open spec fn m_next(m: Self::Model, ctx: SynthContext) -> Self::Model {
        (Lhs::m_next(m.0, ctx), Rhs::m_next(m.1, ctx))
    }

    fn render(&mut self, ctx: &SynthContext) -> (b: Block) {
        let a = self.lhs.render(ctx);
        let c = self.rhs.render(ctx);
        bin_block(BinOp::NeTo, &a, &c)
    }
}

} // verus!
