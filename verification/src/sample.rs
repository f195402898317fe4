//! Fixed-point sample arithmetic.
//!
//! A sample is an `i64` scaled by `UNIT`; every operation clamps its result
//! into `[-SAMPLE_MAX, SAMPLE_MAX]`, so per-sample arithmetic is total.

use vstd::prelude::*;

use crate::SAMPLE_MAX;
use crate::UNIT;

verus! {

/// A sample magnitude within the representable range.
pub open spec fn sample_wf(x: i64) -> bool {
    -SAMPLE_MAX <= x <= SAMPLE_MAX
}

/// Every sample of the sequence is in range.
pub open spec fn seq_wf(s: Seq<i64>) -> bool {
    forall|i: int| 0 <= i < s.len() ==> sample_wf(#[trigger] s[i])
}

/// Clamp an unbounded integer into the sample range.
pub open spec fn sat(x: int) -> i64 {
    if x > SAMPLE_MAX {
        SAMPLE_MAX
    } else if x < -SAMPLE_MAX {
        (-SAMPLE_MAX) as i64
    } else {
        x as i64
    }
}

/// Division truncated towards zero, for a positive divisor.
pub open spec fn tdiv(a: int, d: int) -> int {
    if a >= 0 {
        a / d
    } else {
        -((-a) / d)
    }
}

/// Saturating sum.
pub open spec fn sat_add(a: i64, b: i64) -> i64 {
    sat(a + b)
}

/// Saturating difference.
pub open spec fn sat_sub(a: i64, b: i64) -> i64 {
    sat(a - b)
}

/// Saturating fixed-point product: `a * b / UNIT`, truncated.
pub open spec fn sat_mul(a: i64, b: i64) -> i64 {
    sat(tdiv(a * b, UNIT as int))
}

/// Lane minimum.
pub open spec fn min_s(a: i64, b: i64) -> i64 {
    if a <= b {
        a
    } else {
        b
    }
}

/// Lane maximum.
pub open spec fn max_s(a: i64, b: i64) -> i64 {
    if a >= b {
        a
    } else {
        b
    }
}

/// Absolute value of an in-range sample.
pub open spec fn abs_s(a: i64) -> i64
    recommends
        sample_wf(a),
{
    if a < 0 {
        (-(a as int)) as i64
    } else {
        a
    }
}

/// Negation of an in-range sample.
pub open spec fn neg_s(a: i64) -> i64
    recommends
        sample_wf(a),
{
    (-(a as int)) as i64
}

/// Symmetric clamp of `x` to the magnitude of `level`.
pub open spec fn clip_s(x: i64, level: i64) -> i64
    recommends
        sample_wf(x),
        sample_wf(level),
{
    let m = abs_s(level);
    if abs_s(x) <= m {
        x
    } else if x < 0 {
        neg_s(m)
    } else {
        m
    }
}

/// Truncating division of `p` by `UNIT`, executable.
pub fn div_unit(p: i64) -> (q: i64)
    requires
        i64::MIN < p,
    ensures
        q == tdiv(p as int, UNIT as int),
        0 <= p ==> 0 <= q <= p,
        p < 0 ==> p <= q <= 0,
{
    if p >= 0 {
        (((p as u64) / (UNIT as u64)) as i64)
    } else {
        let m = ((((-p) as u64) / (UNIT as u64)) as i64);
        -m
    }
}

/// Truncating division by an arbitrary positive divisor, executable.
pub fn div_pos(p: i64, d: i64) -> (q: i64)
    requires
        i64::MIN < p,
        0 < d,
    ensures
        q == tdiv(p as int, d as int),
        0 <= p ==> 0 <= q <= p,
        p < 0 ==> p <= q <= 0,
{
    if p >= 0 {
        (((p as u64) / (d as u64)) as i64)
    } else {
        let m = ((((-p) as u64) / (d as u64)) as i64);
        -m
    }
}

/// Euclidean remainder, executable: the result is always in `[0, m)`.
pub fn emod_x(a: i64, m: i64) -> (r: i64)
    requires
        0 < m,
        i64::MIN < a,
    ensures
        r == a as int % m as int,
        0 <= r < m,
{
    if a >= 0 {
        (((a as u64) % (m as u64)) as i64)
    } else {
        let neg = -a;
        let rr = (((neg as u64) % (m as u64)) as i64);
        proof {
            let q = (neg as int) / (m as int);
            vstd::arithmetic::div_mod::lemma_fundamental_div_mod(neg as int, m as int);
            assert(rr as int == (neg as int) % (m as int));
            assert(neg as int == (m as int) * q + rr);
            assert((m as int) * (-q) == -((m as int) * q)) by (nonlinear_arith);
            assert(a as int == (m as int) * (-q) - rr);
            if rr == 0 {
                vstd::arithmetic::div_mod::lemma_mod_multiples_vanish(-q, 0, m as int);
                assert(((m as int) * (-q) + 0) % (m as int) == 0int % (m as int));
                vstd::arithmetic::div_mod::lemma_small_mod(0, m as nat);
                assert(a as int % m as int == 0);
            } else {
                vstd::arithmetic::div_mod::lemma_mod_multiples_vanish(
                    -q - 1,
                    m as int - rr,
                    m as int,
                );
                assert(((m as int) * (-q - 1) + (m as int - rr)) % (m as int) == (m as int - rr)
                    % (m as int));
                assert(a as int == (m as int) * (-q - 1) + (m as int - rr)) by {
                    assert((m as int) * (-q - 1) == (m as int) * (-q) - m) by (nonlinear_arith);
                }
                vstd::arithmetic::div_mod::lemma_small_mod((m - rr) as nat, m as nat);
                assert(a as int % m as int == m - rr);
            }
        }
        if rr == 0 {
            0
        } else {
            m - rr
        }
    }
}

/// Euclidean (floor) division by a positive divisor, executable.
pub fn ediv_x(a: i64, m: i64) -> (q: i64)
    requires
        0 < m,
        i64::MIN + m < a,
        a < i64::MAX - m,
    ensures
        q == a as int / m as int,
{
    if a >= 0 {
        (((a as u64) / (m as u64)) as i64)
    } else {
        let t = ((((-a) as u64 + (m as u64) - 1) / (m as u64)) as i64);
        proof {
            let num = -(a as int) + m - 1;
            vstd::arithmetic::div_mod::lemma_fundamental_div_mod(num, m as int);
            let r2 = num % (m as int);
            assert(a as int == (m as int) * (-(t as int)) + (m - 1 - r2)) by {
                assert((m as int) * (-(t as int)) == -((m as int) * t)) by (nonlinear_arith);
            }
            vstd::arithmetic::div_mod::lemma_fundamental_div_mod_converse(
                a as int,
                m as int,
                -(t as int),
                m - 1 - r2,
            );
        }
        -t
    }
}

/// Floor division by a positive divisor commutes with adding a multiple
/// of the divisor.
pub proof fn lemma_div_add_multiple(c: int, w: int, d: int)
    requires
        0 < d,
    ensures
        (d * c + w) / d == c + w / d,
{
    let t = w / d;
    let r = w % d;
    vstd::arithmetic::div_mod::lemma_fundamental_div_mod(w, d);
    vstd::arithmetic::div_mod::lemma_mod_bound(w, d);
    assert(d * c + w == d * (c + t) + r) by (nonlinear_arith)
        requires
            w == d * t + r,
    ;
    vstd::arithmetic::div_mod::lemma_fundamental_div_mod_converse(d * c + w, d, c + t, r);
}

/// A negative integer floor-divided by a positive divisor gives `-1` or
/// below.
pub proof fn lemma_div_neg_below(w: int, d: int)
    requires
        w < 0,
        0 < d,
    ensures
        w / d <= -1,
{
    let q = w / d;
    let r = w % d;
    vstd::arithmetic::div_mod::lemma_fundamental_div_mod(w, d);
    vstd::arithmetic::div_mod::lemma_mod_bound(w, d);
    assert(q < 0) by (nonlinear_arith)
        requires
            d * q == w - r,
            w - r < 0,
            d >= 1,
    ;
}

/// The scaled ratio `UNIT * t / a` of a progress time `t` within a span
/// `a`, used by the envelope's linear ramps; always lands in `[0, UNIT)`.
pub fn ramp_ratio(t: i64, a: i64) -> (r: i64)
    requires
        0 <= t < a,
        a <= 0x2_0000_0000,
    ensures
        r == (UNIT * t) / (a as int),
        0 <= r < UNIT,
{
    proof {
        assert(0 <= UNIT * t <= UNIT * a - UNIT) by (nonlinear_arith)
            requires
                0 <= t <= a - 1,
                UNIT == 480000,
        ;
        vstd::arithmetic::div_mod::lemma_div_pos_is_pos(UNIT * t, a as int);
        vstd::arithmetic::div_mod::lemma_div_is_ordered(UNIT * t, UNIT * a - UNIT, a as int);
        lemma_div_add_multiple(UNIT as int, -(UNIT as int), a as int);
        assert((a as int) * UNIT == UNIT * a) by (nonlinear_arith);
        lemma_div_neg_below(-(UNIT as int), a as int);
        assert((UNIT as u64 as int) * (t as int) == UNIT * t) by (nonlinear_arith);
    }
    (((UNIT as u64) * (t as u64)) / (a as u64)) as i64
}

/// Executable clamp into the sample range.
pub fn sat_x(x: i64) -> (r: i64)
    ensures
        r == sat(x as int),
        sample_wf(r),
{
    if x > SAMPLE_MAX {
        SAMPLE_MAX
    } else if x < -SAMPLE_MAX {
        -SAMPLE_MAX
    } else {
        x
    }
}

/// Executable saturating sum.
pub fn add_x(a: i64, b: i64) -> (r: i64)
    requires
        sample_wf(a),
        sample_wf(b),
    ensures
        r == sat_add(a, b),
        sample_wf(r),
{
    sat_x(a + b)
}

/// Executable saturating difference.
pub fn sub_x(a: i64, b: i64) -> (r: i64)
    requires
        sample_wf(a),
        sample_wf(b),
    ensures
        r == sat_sub(a, b),
        sample_wf(r),
{
    sat_x(a - b)
}

/// Executable saturating fixed-point product.
pub fn mul_x(a: i64, b: i64) -> (r: i64)
    requires
        sample_wf(a),
        sample_wf(b),
    ensures
        r == sat_mul(a, b),
        sample_wf(r),
{
    proof {
        assert(-(SAMPLE_MAX * SAMPLE_MAX) <= a * b <= SAMPLE_MAX * SAMPLE_MAX)
            by (nonlinear_arith)
            requires
                -SAMPLE_MAX <= a <= SAMPLE_MAX,
                -SAMPLE_MAX <= b <= SAMPLE_MAX,
        ;
    }
    let p = a * b;
    let q = div_unit(p);
    sat_x(q)
}

/// Executable lane minimum.
pub fn min_x(a: i64, b: i64) -> (r: i64)
    ensures
        r == min_s(a, b),
{
    if a <= b {
        a
    } else {
        b
    }
}

/// Executable lane maximum.
pub fn max_x(a: i64, b: i64) -> (r: i64)
    ensures
        r == max_s(a, b),
{
    if a >= b {
        a
    } else {
        b
    }
}

/// Executable absolute value.
pub fn abs_x(a: i64) -> (r: i64)
    requires
        sample_wf(a),
    ensures
        r == abs_s(a),
        sample_wf(r),
        0 <= r,
{
    if a < 0 {
        -a
    } else {
        a
    }
}

/// Executable negation.
pub fn neg_x(a: i64) -> (r: i64)
    requires
        sample_wf(a),
    ensures
        r == neg_s(a),
        sample_wf(r),
{
    -a
}

/// Executable symmetric clip.
pub fn clip_x(x: i64, level: i64) -> (r: i64)
    requires
        sample_wf(x),
        sample_wf(level),
    ensures
        r == clip_s(x, level),
        sample_wf(r),
{
    let m = abs_x(level);
    let ax = abs_x(x);
    if ax <= m {
        x
    } else if x < 0 {
        -m
    } else {
        m
    }
}

/// The pointwise binary operations of the engine.
#[derive(Debug, Clone, Copy)]
pub enum BinOp {
    Plus,
    Minus,
    Times,
    Low,
    High,
    Clamp,
    Gt,
    Ge,
    Lt,
    Le,
    EqTo,
    NeTo,
}

/// Meaning of one pointwise binary operation.  Comparators emit `UNIT`
/// for true and 0 for false.
pub open spec fn bin_apply(op: BinOp, a: i64, b: i64) -> i64 {
    match op {
        BinOp::Plus => sat_add(a, b),
        BinOp::Minus => sat_sub(a, b),
        BinOp::Times => sat_mul(a, b),
        BinOp::Low => min_s(a, b),
        BinOp::High => max_s(a, b),
        BinOp::Clamp => clip_s(a, b),
        BinOp::Gt => if a > b { UNIT } else { 0 },
        BinOp::Ge => if a >= b { UNIT } else { 0 },
        BinOp::Lt => if a < b { UNIT } else { 0 },
        BinOp::Le => if a <= b { UNIT } else { 0 },
        BinOp::EqTo => if a == b { UNIT } else { 0 },
        BinOp::NeTo => if a != b { UNIT } else { 0 },
    }
}

/// The pointwise image of two sample sequences under `op`.
pub open spec fn seq_bin(op: BinOp, a: Seq<i64>, b: Seq<i64>) -> Seq<i64>
    recommends
        a.len() == b.len(),
{
    Seq::new(a.len(), |i: int| bin_apply(op, a[i], b[i]))
}

/// A pointwise binary operation keeps samples in range.
pub proof fn lemma_bin_apply_wf(op: BinOp, a: i64, b: i64)
    requires
        sample_wf(a),
        sample_wf(b),
    ensures
        sample_wf(bin_apply(op, a, b)),
{
}

/// Executable dispatch of one pointwise binary operation.
pub fn bin_apply_x(op: BinOp, a: i64, b: i64) -> (r: i64)
    requires
        sample_wf(a),
        sample_wf(b),
    ensures
        r == bin_apply(op, a, b),
        sample_wf(r),
{
    match op {
        BinOp::Plus => add_x(a, b),
        BinOp::Minus => sub_x(a, b),
        BinOp::Times => mul_x(a, b),
        BinOp::Low => min_x(a, b),
        BinOp::High => max_x(a, b),
        BinOp::Clamp => clip_x(a, b),
        BinOp::Gt => if a > b { UNIT } else { 0 },
        BinOp::Ge => if a >= b { UNIT } else { 0 },
        BinOp::Lt => if a < b { UNIT } else { 0 },
        BinOp::Le => if a <= b { UNIT } else { 0 },
        BinOp::EqTo => if a == b { UNIT } else { 0 },
        BinOp::NeTo => if a != b { UNIT } else { 0 },
    }
}

/// The pointwise unary operations of the engine.
#[derive(Debug, Clone, Copy)]
pub enum UnOp {
    Mag,
    Neg,
}

/// Meaning of one pointwise unary operation.
pub open spec fn un_apply(op: UnOp, a: i64) -> i64 {
    match op {
        UnOp::Mag => abs_s(a),
        UnOp::Neg => neg_s(a),
    }
}

/// The pointwise image of a sample sequence under `op`.
pub open spec fn seq_un(op: UnOp, a: Seq<i64>) -> Seq<i64> {
    Seq::new(a.len(), |i: int| un_apply(op, a[i]))
}

/// Executable dispatch of one pointwise unary operation.
pub fn un_apply_x(op: UnOp, a: i64) -> (r: i64)
    requires
        sample_wf(a),
    ensures
        r == un_apply(op, a),
        sample_wf(r),
{
    match op {
        UnOp::Mag => abs_x(a),
        UnOp::Neg => neg_x(a),
    }
}

} // verus!
