//! Single-pole recursive filters with one memory sample.
//!
//! Both filters run the difference equation
//! `y[n] = (a0 * x[n] + b1 * y[n-1]) / UNIT` (floor division, saturated),
//! with coefficients fixed at construction from the cutoff frequency.
//! The decay magnitude approximates `exp(-2*pi*fc)` by a degree-two
//! rational function that is exact at a cutoff of zero and stays within
//! `[0, 1]` over the whole normalized cutoff range.

use vstd::prelude::*;

use crate::Block;
use crate::Operator;
use crate::SynthContext;
use crate::MAX_SAMPLE_RATE;
use crate::MIN_SAMPLE_RATE;
use crate::BLOCK_SIZE;
use crate::FREQ_MAX;
use crate::SAMPLE_MAX;
use crate::UNIT;
use crate::block_wf;
use crate::runner::run_out;
use crate::runner::run_state;
use crate::sample;
use crate::sample::sample_wf;
use crate::sample::sat;
use crate::sample::seq_wf;

verus! {

/// `2 * pi` in fixed point, rounded to the nearest integer.
pub const TWO_PI: i64 = 3015929;

/// Largest value `2 * pi * fc` can take for a normalized cutoff `fc`
/// clamped to one half.
pub const PHASE_ARG_MAX: i64 = 1507964;

/// One step of the shared difference equation.
pub open spec fn filter_step(a0: i64, b1: i64) -> spec_fn(i64, i64) -> (i64, i64) {
    |y: i64, x: i64|
        {
            let y2 = sat((a0 * x + b1 * y) / (UNIT as int));
            (y2, y2)
        }
}

/// The rational approximation of `exp(-x/UNIT)` on `[0, pi]`, in fixed
/// point: `UNIT * (x^2 - 6*UNIT*x + 12*UNIT^2) / (x^2 + 6*UNIT*x + 12*UNIT^2)`.
pub open spec fn decay_of_arg(x: int) -> int {
    (UNIT * (x * x - 6 * UNIT * x + 12 * UNIT * UNIT)) / (x * x + 6 * UNIT * x + 12 * UNIT
        * UNIT)
}

/// The normalized cutoff `cutoff / rate`, clamped to `[0, 1/2]`, fixed
/// point.
pub open spec fn norm_cutoff(cutoff: i64, rate: u32) -> int {
    let fc = if cutoff <= 0 {
        0int
    } else {
        cutoff as int / rate as int
    };
    if fc > UNIT / 2 {
        UNIT / 2
    } else {
        fc
    }
}

/// The low-pass decay coefficient: `exp(-2*pi*fc)` approximated.
pub open spec fn lpf_decay(cutoff: i64, rate: u32) -> int {
    decay_of_arg((TWO_PI * norm_cutoff(cutoff, rate)) / (UNIT as int))
}

/// The high-pass decay coefficient: `-exp(-2*pi*(1/2 - fc))` approximated.
pub open spec fn hpf_decay(cutoff: i64, rate: u32) -> int {
    -decay_of_arg((TWO_PI * (UNIT / 2 - norm_cutoff(cutoff, rate))) / (UNIT as int))
}

/// Executable normalized cutoff.
fn norm_cutoff_x(cutoff: i64, rate: u32) -> (fc: i64)
    requires
        -FREQ_MAX <= cutoff <= FREQ_MAX,
        MIN_SAMPLE_RATE <= rate <= MAX_SAMPLE_RATE,
    ensures
        fc == norm_cutoff(cutoff, rate),
        0 <= fc <= UNIT / 2,
{
    if cutoff <= 0 {
        0
    } else {
        let q = ((cutoff as u64) / (rate as u64)) as i64;
        if q > UNIT / 2 {
            UNIT / 2
        } else {
            q
        }
    }
}

/// Executable decay coefficient from the phase argument `x = 2*pi*fc`.
fn decay_of_arg_x(x: i64) -> (k: i64)
    requires
        0 <= x <= PHASE_ARG_MAX,
    ensures
        k == decay_of_arg(x as int),
        0 <= k <= UNIT,
        x > 0 ==> k < UNIT,
        x == 0 ==> k == UNIT,
{
    proof {
        assert(0 <= x * x <= 1507964int * 1507964) by (nonlinear_arith)
            requires
                0 <= x <= 1507964,
        ;
    }
    let x2 = x * x;
    let num = x2 - 6 * UNIT * x + 12 * UNIT * UNIT;
    let den = x2 + 6 * UNIT * x + 12 * UNIT * UNIT;
    proof {
        assert(num == (x - 3 * UNIT) * (x - 3 * UNIT) + 3 * UNIT * UNIT) by (nonlinear_arith)
            requires
                num == x * x - 6 * UNIT * x + 12 * UNIT * UNIT,
                UNIT == 480000,
        ;
        assert((x - 3 * UNIT) * (x - 3 * UNIT) >= 0) by (nonlinear_arith);
        assert(num > 0);
        assert(den >= num);
        assert(UNIT * num <= UNIT * den) by (nonlinear_arith)
            requires
                0 < num <= den,
                UNIT == 480000,
        ;
        assert(UNIT * num > 0) by (nonlinear_arith)
            requires
                num > 0,
                UNIT == 480000,
        ;
        vstd::arithmetic::div_mod::lemma_div_multiples_vanish(UNIT as int, den as int);
        assert(den * UNIT == UNIT * den) by (nonlinear_arith);
        vstd::arithmetic::div_mod::lemma_div_is_ordered(
            UNIT * num,
            UNIT * den,
            den as int,
        );
        vstd::arithmetic::div_mod::lemma_div_pos_is_pos(UNIT * num, den as int);
        if x > 0 {
            assert(num < den);
            assert(UNIT * num <= UNIT * den - UNIT) by (nonlinear_arith)
                requires
                    0 < num,
                    num <= den - 1,
                    UNIT == 480000,
            ;
            assert((UNIT * den - UNIT) / (den as int) <= UNIT - 1) by {
                assert(UNIT * den - UNIT == den * (UNIT - 1) + (den - UNIT)) by (nonlinear_arith);
                vstd::arithmetic::div_mod::lemma_div_multiples_vanish_fancy(
                    UNIT - 1,
                    den - UNIT,
                    den as int,
                );
            }
            vstd::arithmetic::div_mod::lemma_div_is_ordered(
                UNIT * num,
                UNIT * den - UNIT,
                den as int,
            );
        }
        if x == 0 {
            assert(num == den);
        }
        assert(UNIT * num <= 2430000000000000000) by (nonlinear_arith)
            requires
                0 < num <= 5042000000000int,
                UNIT == 480000,
        ;
    }
    let k = (((UNIT as u64) * (num as u64)) / (den as u64)) as i64;
    proof {
        assert((UNIT as u64 as int) * (num as int) == UNIT * num) by (nonlinear_arith);
    }
    k
}

/// A single-pole low-pass filter: `y[n] = ((UNIT-k)*x[n] + k*y[n-1]) / UNIT`.
#[derive(Debug, Clone)]
pub struct SinglePoleLpf<I> {
    pub input: I,
    pub decay: i64,
    pub buffer: i64,
}

impl<I: Operator> SinglePoleLpf<I> {
    /// A low-pass over `input` with the given cutoff (fixed-point Hz).
    pub fn lpf(input: I, cutoff: i64, sample_rate: u32) -> (r: SinglePoleLpf<I>)
        requires
            -FREQ_MAX <= cutoff <= FREQ_MAX,
            MIN_SAMPLE_RATE <= sample_rate <= MAX_SAMPLE_RATE,
        ensures
            r.input == input,
            r.decay == lpf_decay(cutoff, sample_rate),
            r.buffer == 0,
            0 <= r.decay <= UNIT,
    {
        let fc = norm_cutoff_x(cutoff, sample_rate);
        proof {
            assert(0 <= TWO_PI * fc <= 3015929int * 240000) by (nonlinear_arith)
                requires
                    0 <= fc <= 240000,
                    TWO_PI == 3015929,
            ;
            vstd::arithmetic::div_mod::lemma_div_is_ordered(
                TWO_PI * fc,
                3015929int * 240000,
                UNIT as int,
            );
            vstd::arithmetic::div_mod::lemma_div_pos_is_pos(TWO_PI * fc, UNIT as int);
        }
        let x = (((TWO_PI as u64) * (fc as u64)) / (UNIT as u64)) as i64;
        proof {
            assert((TWO_PI as u64 as int) * (fc as int) == TWO_PI * fc) by (nonlinear_arith);
        }
        let decay = decay_of_arg_x(x);
        SinglePoleLpf { input, decay, buffer: 0 }
    }
}

impl<I: Operator> Operator for SinglePoleLpf<I> {
    type Model = (I::Model, i64, i64);

    open spec fn model(self) -> Self::Model {
        (self.input.model(), self.decay, self.buffer)
    }

    open spec fn m_wf(m: Self::Model) -> bool {
        I::m_wf(m.0) && 0 <= m.1 <= UNIT && sample_wf(m.2)
    }

    open spec fn m_out(m: Self::Model, ctx: SynthContext) -> Seq<i64> {
        run_out(filter_step((UNIT - m.1) as i64, m.1), m.2, I::m_out(m.0, ctx))
    }

    open spec fn m_next(m: Self::Model, ctx: SynthContext) -> Self::Model {
        (
            I::m_next(m.0, ctx),
            m.1,
            run_state(filter_step((UNIT - m.1) as i64, m.1), m.2, I::m_out(m.0, ctx)),
        )
    }

    fn render(&mut self, ctx: &SynthContext) -> (b: Block) {
        let inb = self.input.render(ctx);
        let (b, y) = filter_block(UNIT - self.decay, self.decay, &inb, self.buffer);
        self.buffer = y;
        b
    }
}

/// A single-pole high-pass filter: `y[n] = ((UNIT+k)*x[n] + k*y[n-1]) / UNIT`
/// with a negative decay `k`.
#[derive(Debug, Clone)]
pub struct SinglePoleHpf<I> {
    pub input: I,
    pub decay: i64,
    pub buffer: i64,
}

impl<I: Operator> SinglePoleHpf<I> {
    /// A high-pass over `input` with the given cutoff (fixed-point Hz).
    pub fn hpf(input: I, cutoff: i64, sample_rate: u32) -> (r: SinglePoleHpf<I>)
        requires
            -FREQ_MAX <= cutoff <= FREQ_MAX,
            MIN_SAMPLE_RATE <= sample_rate <= MAX_SAMPLE_RATE,
        ensures
            r.input == input,
            r.decay == hpf_decay(cutoff, sample_rate),
            r.buffer == 0,
            -UNIT <= r.decay <= 0,
    {
        let fc = norm_cutoff_x(cutoff, sample_rate);
        let hf = UNIT / 2 - fc;
        proof {
            assert(0 <= TWO_PI * hf <= 3015929int * 240000) by (nonlinear_arith)
                requires
                    0 <= hf <= 240000,
                    TWO_PI == 3015929,
            ;
            vstd::arithmetic::div_mod::lemma_div_is_ordered(
                TWO_PI * hf,
                3015929int * 240000,
                UNIT as int,
            );
            vstd::arithmetic::div_mod::lemma_div_pos_is_pos(TWO_PI * hf, UNIT as int);
        }
        let x = (((TWO_PI as u64) * (hf as u64)) / (UNIT as u64)) as i64;
        proof {
            assert((TWO_PI as u64 as int) * (hf as int) == TWO_PI * hf) by (nonlinear_arith);
        }
        let decay = -decay_of_arg_x(x);
        SinglePoleHpf { input, decay, buffer: 0 }
    }
}

impl<I: Operator> Operator for SinglePoleHpf<I> {
    type Model = (I::Model, i64, i64);

    open spec fn model(self) -> Self::Model {
        (self.input.model(), self.decay, self.buffer)
    }

    open spec fn m_wf(m: Self::Model) -> bool {
        I::m_wf(m.0) && -UNIT <= m.1 <= 0 && sample_wf(m.2)
    }

    open spec fn m_out(m: Self::Model, ctx: SynthContext) -> Seq<i64> {
        run_out(filter_step((UNIT + m.1) as i64, m.1), m.2, I::m_out(m.0, ctx))
    }

    open spec fn m_next(m: Self::Model, ctx: SynthContext) -> Self::Model {
        (
            I::m_next(m.0, ctx),
            m.1,
            run_state(filter_step((UNIT + m.1) as i64, m.1), m.2, I::m_out(m.0, ctx)),
        )
    }

    fn render(&mut self, ctx: &SynthContext) -> (b: Block) {
        let inb = self.input.render(ctx);
        let (b, y) = filter_block(UNIT + self.decay, self.decay, &inb, self.buffer);
        self.buffer = y;
        b
    }
}

/// Run the shared difference equation over one block.
fn filter_block(a0: i64, b1: i64, inb: &Block, y0: i64) -> (r: (Block, i64))
    requires
        -2 * UNIT <= a0 <= 2 * UNIT,
        -UNIT <= b1 <= UNIT,
        block_wf(*inb),
        sample_wf(y0),
    ensures
        r.0@ == run_out(filter_step(a0, b1), y0, inb@),
        r.1 == run_state(filter_step(a0, b1), y0, inb@),
        block_wf(r.0),
        sample_wf(r.1),
{
    let ghost step = filter_step(a0, b1);
    let ghost ins = inb@;
    let mut y = y0;
    let mut samples: Vec<i64> = Vec::new();
    let mut i: usize = 0;
    while i < BLOCK_SIZE
        invariant
            i <= BLOCK_SIZE,
            inb@ == ins,
            ins.len() == BLOCK_SIZE,
            seq_wf(ins),
            -2 * UNIT <= a0 <= 2 * UNIT,
            -UNIT <= b1 <= UNIT,
            step == filter_step(a0, b1),
            sample_wf(y),
            y == run_state(step, y0, ins.take(i as int)),
            samples@ == run_out(step, y0, ins.take(i as int)),
            samples@.len() == i,
            seq_wf(samples@),
        decreases BLOCK_SIZE - i,
    {
        let x = inb.get(i);
        proof {
            assert(-4000000000000000 <= a0 * x <= 4000000000000000) by (nonlinear_arith)
                requires
                    -2 * UNIT <= a0 <= 2 * UNIT,
                    -SAMPLE_MAX <= x <= SAMPLE_MAX,
                    UNIT == 480000,
                    SAMPLE_MAX == 0x8000_0000,
            ;
            assert(-2000000000000000 <= b1 * y <= 2000000000000000) by (nonlinear_arith)
                requires
                    -UNIT <= b1 <= UNIT,
                    -SAMPLE_MAX <= y <= SAMPLE_MAX,
                    UNIT == 480000,
                    SAMPLE_MAX == 0x8000_0000,
            ;
        }
        let numer = a0 * x + b1 * y;
        let q = sample::ediv_x(numer, UNIT);
        let y2 = sample::sat_x(q);
        proof {
            assert(ins.take(i + 1).drop_last() =~= ins.take(i as int));
            assert(ins.take(i + 1).last() == ins[i as int]);
            assert(step(y, x) == (y2, y2));
        }
        samples.push(y2);
        y = y2;
        i += 1;
    }
    proof {
        assert(ins.take(BLOCK_SIZE as int) =~= ins);
    }
    (Block::from_samples(samples), y)
}

/// One low-pass step moves the memory toward a constant input and never
/// past it: from above it comes strictly closer each step; from below it
/// climbs, strictly so while `(UNIT - k) * (c - y) >= UNIT`; and the
/// input value itself is a fixed point — the filter's DC gain is one.
pub proof fn lemma_lpf_step_toward_input(k: i64, c: i64, y: i64)
    requires
        0 <= k < UNIT,
        sample_wf(c),
        sample_wf(y),
    ensures
        ({
            let y2 = (filter_step((UNIT - k) as i64, k))(y, c).0;
            &&& (y == c ==> y2 == c)
            &&& (y > c ==> c <= y2 <= y - 1)
            &&& (y < c ==> y <= y2 <= c)
            &&& ((y < c && (UNIT - k) * (c - y) >= UNIT) ==> y + 1 <= y2)
        }),
{
    let a0 = (UNIT - k) as i64;
    let e = y as int - c;
    let w = k * e;
    assert(a0 * c + k * y == UNIT * c + w) by (nonlinear_arith)
        requires
            a0 == UNIT - k,
            w == k * (y - c),
            e == y - c,
    ;
    sample::lemma_div_add_multiple(c as int, w, UNIT as int);
    let q = w / (UNIT as int);
    if e == 0 {
        assert(w == 0) by (nonlinear_arith)
            requires
                w == k * e,
                e == 0,
        ;
        assert(q == 0) by {
            vstd::arithmetic::div_mod::lemma_div_of0(UNIT as int);
        }
    } else if e > 0 {
        assert(0 <= w) by (nonlinear_arith)
            requires
                w == k * e,
                k >= 0,
                e > 0,
        ;
        vstd::arithmetic::div_mod::lemma_div_pos_is_pos(w, UNIT as int);
        assert(w <= UNIT * e + (-e)) by (nonlinear_arith)
            requires
                w == k * e,
                k <= UNIT - 1,
                e >= 1,
        ;
        vstd::arithmetic::div_mod::lemma_div_is_ordered(w, UNIT * e + (-e), UNIT as int);
        sample::lemma_div_add_multiple(e, -e, UNIT as int);
        sample::lemma_div_neg_below(-e, UNIT as int);
        assert(q <= e - 1);
    } else {
        assert(w <= 0) by (nonlinear_arith)
            requires
                w == k * e,
                k >= 0,
                e < 0,
        ;
        assert(UNIT * e <= w) by (nonlinear_arith)
            requires
                w == k * e,
                k <= UNIT,
                e < 0,
        ;
        vstd::arithmetic::div_mod::lemma_div_is_ordered(UNIT * e, w, UNIT as int);
        assert((UNIT * e) / (UNIT as int) == e) by {
            sample::lemma_div_add_multiple(e, 0, UNIT as int);
            vstd::arithmetic::div_mod::lemma_div_of0(UNIT as int);
        }
        vstd::arithmetic::div_mod::lemma_div_is_ordered(w, 0, UNIT as int);
        vstd::arithmetic::div_mod::lemma_div_of0(UNIT as int);
        assert(e <= q <= 0);
        if (UNIT - k) * (c - y) >= UNIT {
            assert(w >= UNIT * (e + 1)) by (nonlinear_arith)
                requires
                    w == k * e,
                    e == y - c,
                    (UNIT - k) * (c - y) >= UNIT,
            ;
            vstd::arithmetic::div_mod::lemma_div_is_ordered(UNIT * (e + 1), w, UNIT as int);
            assert((UNIT * (e + 1)) / (UNIT as int) == e + 1) by {
                sample::lemma_div_add_multiple(e + 1, 0, UNIT as int);
                vstd::arithmetic::div_mod::lemma_div_of0(UNIT as int);
            }
            assert(q >= e + 1);
        }
    }
}

/// Driving a low-pass with a constant from above, the memory descends
/// toward the input and never undershoots it.
pub proof fn lemma_lpf_descent(k: i64, c: i64, y0: i64, ins: Seq<i64>)
    requires
        0 <= k < UNIT,
        sample_wf(c),
        sample_wf(y0),
        c <= y0,
        forall|i: int| 0 <= i < ins.len() ==> ins[i] == c,
    ensures
        c <= run_state(filter_step((UNIT - k) as i64, k), y0, ins) <= y0,
        run_state(filter_step((UNIT - k) as i64, k), y0, ins) - c <= (if y0 - c
            <= ins.len() {
            0int
        } else {
            y0 - c - ins.len()
        }),
    decreases ins.len(),
{
    let step = filter_step((UNIT - k) as i64, k);
    if ins.len() > 0 {
        lemma_lpf_descent(k, c, y0, ins.drop_last());
        let prev = run_state(step, y0, ins.drop_last());
        assert(ins.last() == c);
        lemma_lpf_step_toward_input(k, c, prev);
    }
}

/// LPF DC convergence: a constant input `c` held long enough brings the
/// filter memory (and so the output) to exactly `c`, when the memory
/// starts at or above `c` — in particular from the usual zero start with
/// a nonpositive constant; `c` is then held forever.  The low-pass DC
/// gain is exactly one.
pub proof fn lemma_lpf_dc_gain_one(k: i64, c: i64, y0: i64, ins: Seq<i64>)
    requires
        0 <= k < UNIT,
        sample_wf(c),
        sample_wf(y0),
        c <= y0,
        ins.len() >= y0 - c,
        forall|i: int| 0 <= i < ins.len() ==> ins[i] == c,
    ensures
        run_state(filter_step((UNIT - k) as i64, k), y0, ins) == c,
{
    lemma_lpf_descent(k, c, y0, ins);
}

/// Climb invariant for a low-pass below its input: the memory never
/// passes the input, and shrinks its gap by one each step until
/// `(UNIT - k) * (c - y)` drops under `UNIT`.
proof fn lemma_lpf_ascent(k: i64, c: i64, y0: i64, ins: Seq<i64>)
    requires
        0 <= k < UNIT,
        sample_wf(c),
        sample_wf(y0),
        y0 <= c,
        forall|i: int| 0 <= i < ins.len() ==> ins[i] == c,
    ensures
        ({
            let yn = run_state(filter_step((UNIT - k) as i64, k), y0, ins);
            &&& y0 <= yn <= c
            &&& ((UNIT - k) * (c - yn) < UNIT || c - yn <= (c - y0) - ins.len())
        }),
    decreases ins.len(),
{
    let step = filter_step((UNIT - k) as i64, k);
    if ins.len() > 0 {
        lemma_lpf_ascent(k, c, y0, ins.drop_last());
        let prev = run_state(step, y0, ins.drop_last());
        assert(ins.last() == c);
        lemma_lpf_step_toward_input(k, c, prev);
        let yn = run_state(step, y0, ins);
        assert(prev <= yn <= c);
        assert((UNIT - k) * (c - yn) <= (UNIT - k) * (c - prev)) by (nonlinear_arith)
            requires
                prev <= yn,
                UNIT - k >= 0,
        ;
        if (UNIT - k) * (c - yn) >= UNIT {
            assert((UNIT - k) * (c - prev) >= UNIT);
            assert(c - prev >= 1) by (nonlinear_arith)
                requires
                    (UNIT - k) * (c - prev) >= UNIT,
                    0 <= UNIT - k,
                    UNIT == 480000,
            ;
            assert(yn >= prev + 1);
        }
    }
}

/// LPF DC convergence from below: a constant input held long enough
/// pulls the memory up to within one scaled ulp of the input — the gap
/// `c - y` ends below `UNIT / (UNIT - k)`.
pub proof fn lemma_lpf_dc_settles_from_below(k: i64, c: i64, y0: i64, ins: Seq<i64>)
    requires
        0 <= k < UNIT,
        sample_wf(c),
        sample_wf(y0),
        y0 <= c,
        ins.len() >= c - y0,
        forall|i: int| 0 <= i < ins.len() ==> ins[i] == c,
    ensures
        ({
            let yn = run_state(filter_step((UNIT - k) as i64, k), y0, ins);
            &&& y0 <= yn <= c
            &&& (UNIT - k) * (c - yn) < UNIT
        }),
{
    lemma_lpf_ascent(k, c, y0, ins);
    let yn = run_state(filter_step((UNIT - k) as i64, k), y0, ins);
    if (UNIT - k) * (c - yn) >= UNIT {
        assert(c - yn <= (c - y0) - ins.len());
        assert((UNIT - k) * (c - yn) <= 0) by (nonlinear_arith)
            requires
                c - yn <= 0,
                UNIT - k >= 0,
        ;
    }
}

/// One high-pass step never amplifies a constant input: with the memory
/// within the input's magnitude, it stays there.
pub proof fn lemma_hpf_step_never_amplifies(k: i64, c: i64, y: i64)
    requires
        -UNIT <= k <= 0,
        0 <= c <= SAMPLE_MAX,
        -c <= y <= c,
    ensures
        -c <= (filter_step((UNIT + k) as i64, k))(y, c).0 <= c,
{
    let a0 = (UNIT + k) as i64;
    let numer = a0 * c + k * y;
    assert(-(UNIT * c) <= numer <= UNIT * c) by (nonlinear_arith)
        requires
            numer == (UNIT + k) * c + k * y,
            -UNIT <= k <= 0,
            0 <= c,
            -c <= y <= c,
    ;
    assert((UNIT * c) / (UNIT as int) == c) by {
        sample::lemma_div_add_multiple(c as int, 0, UNIT as int);
        vstd::arithmetic::div_mod::lemma_div_of0(UNIT as int);
    }
    assert((-(UNIT * c)) / (UNIT as int) == -c) by {
        assert(UNIT * (-(c as int)) == -(UNIT * c)) by (nonlinear_arith);
        sample::lemma_div_add_multiple(-(c as int), 0, UNIT as int);
        vstd::arithmetic::div_mod::lemma_div_of0(UNIT as int);
    }
    vstd::arithmetic::div_mod::lemma_div_is_ordered(numer as int, UNIT * c, UNIT as int);
    vstd::arithmetic::div_mod::lemma_div_is_ordered(-(UNIT * c), numer as int, UNIT as int);
}

/// A high-pass filter attenuates at DC: driven by a constant input from
/// any memory within that input's magnitude, every output sample stays
/// within it too - the gain never exceeds one.
pub proof fn lemma_hpf_dc_never_amplified(k: i64, c: i64, y0: i64, ins: Seq<i64>)
    requires
        -UNIT <= k <= 0,
        0 <= c <= SAMPLE_MAX,
        -c <= y0 <= c,
        forall|i: int| 0 <= i < ins.len() ==> ins[i] == c,
    ensures
        -c <= run_state(filter_step((UNIT + k) as i64, k), y0, ins) <= c,
        forall|i: int|
            0 <= i < ins.len() ==> -c <= #[trigger] run_out(
                filter_step((UNIT + k) as i64, k),
                y0,
                ins,
            )[i] <= c,
    decreases ins.len(),
{
    let step = filter_step((UNIT + k) as i64, k);
    crate::runner::lemma_run_out_len(step, y0, ins);
    if ins.len() > 0 {
        lemma_hpf_dc_never_amplified(k, c, y0, ins.drop_last());
        crate::runner::lemma_run_out_len(step, y0, ins.drop_last());
        let prev = run_state(step, y0, ins.drop_last());
        assert(ins.last() == c);
        lemma_hpf_step_never_amplifies(k, c, prev);
        assert(forall|i: int|
            0 <= i < ins.len() - 1 ==> #[trigger] run_out(step, y0, ins)[i] == run_out(
                step,
                y0,
                ins.drop_last(),
            )[i]);
    }
}

/// The signed distance of a high-pass memory `y` from the filter's true
/// DC response to a constant input `c`, scaled by `UNIT - k` to stay in
/// integers: zero exactly when `y == (UNIT+k)*c / (UNIT-k)`.
pub open spec fn hpf_dc_gap(k: i64, c: i64, y: i64) -> int {
    y * (UNIT - k) - (UNIT + k) * c
}

/// One high-pass step pulls the memory toward the filter's DC response:
/// outside a fixed band around it the scaled gap shrinks by at least
/// `UNIT - k`; once inside the band, the step stays there.
pub proof fn lemma_hpf_step_toward_dc(k: i64, c: i64, y: i64)
    requires
        -UNIT < k <= 0,
        -SAMPLE_MAX <= c <= SAMPLE_MAX,
        -SAMPLE_MAX <= y <= SAMPLE_MAX,
    ensures
        ({
            let y2 = (filter_step((UNIT + k) as i64, k))(y, c).0;
            let d0 = hpf_dc_gap(k, c, y);
            let d2 = hpf_dc_gap(k, c, y2);
            let band = 2 * UNIT * (UNIT - k);
            &&& -SAMPLE_MAX <= y2 <= SAMPLE_MAX
            &&& ((UNIT + k) * (if d0 >= 0 {
                d0
            } else {
                -d0
            }) >= band ==> (if d2 >= 0 {
                d2
            } else {
                -d2
            }) <= (if d0 >= 0 {
                d0
            } else {
                -d0
            }) - (UNIT - k))
            &&& ((UNIT + k) * (if d0 >= 0 {
                d0
            } else {
                -d0
            }) <= band ==> (UNIT + k) * (if d2 >= 0 {
                d2
            } else {
                -d2
            }) <= band)
        }),
{
    let a0 = (UNIT + k) as i64;
    let numer = a0 * c + k * y;
    assert(-(UNIT + k) * SAMPLE_MAX - (-k) * SAMPLE_MAX <= numer <= (UNIT + k) * SAMPLE_MAX + (-k)
        * SAMPLE_MAX) by (nonlinear_arith)
        requires
            numer == (UNIT + k) * c + k * y,
            -UNIT < k <= 0,
            -SAMPLE_MAX <= c <= SAMPLE_MAX,
            -SAMPLE_MAX <= y <= SAMPLE_MAX,
    ;
    assert((UNIT + k) * SAMPLE_MAX + (-k) * SAMPLE_MAX == UNIT * SAMPLE_MAX) by (nonlinear_arith);
    let q = (numer as int) / (UNIT as int);
    let rho = (numer as int) % (UNIT as int);
    vstd::arithmetic::div_mod::lemma_fundamental_div_mod(numer as int, UNIT as int);
    vstd::arithmetic::div_mod::lemma_mod_bound(numer as int, UNIT as int);
    // The quotient never reaches saturation.
    assert(-SAMPLE_MAX <= q <= SAMPLE_MAX) by (nonlinear_arith)
        requires
            UNIT * q == numer - rho,
            0 <= rho < UNIT,
            -(UNIT * SAMPLE_MAX) <= numer <= UNIT * SAMPLE_MAX,
            UNIT == 480000,
            SAMPLE_MAX == 0x8000_0000,
    ;
    let y2 = (filter_step(a0, k))(y, c).0;
    assert(y2 == q);
    let d0 = hpf_dc_gap(k, c, y);
    let d2 = hpf_dc_gap(k, c, y2 as i64);
    // The exact recurrence of the scaled gap.
    assert(UNIT * d2 == k * d0 - rho * (UNIT - k)) by (nonlinear_arith)
        requires
            d2 == q * (UNIT - k) - (UNIT + k) * c,
            d0 == y * (UNIT - k) - (UNIT + k) * c,
            UNIT * q == numer - rho,
            numer == (UNIT + k) * c + k * y,
    ;
    let a_d0 = if d0 >= 0 {
        d0
    } else {
        -d0
    };
    let a_d2 = if d2 >= 0 {
        d2
    } else {
        -d2
    };
    assert(UNIT * a_d2 <= (-k) * a_d0 + rho * (UNIT - k)) by (nonlinear_arith)
        requires
            UNIT * d2 == k * d0 - rho * (UNIT - k),
            a_d2 == (if d2 >= 0 {
                d2
            } else {
                -d2
            }),
            a_d0 == (if d0 >= 0 {
                d0
            } else {
                -d0
            }),
            k <= 0,
            0 <= rho,
            k < UNIT,
            UNIT == 480000,
    ;
    let band = 2 * UNIT * (UNIT - k);
    if (UNIT + k) * a_d0 >= band {
        assert(UNIT * a_d2 <= UNIT * (a_d0 - (UNIT - k))) by (nonlinear_arith)
            requires
                UNIT * a_d2 <= (-k) * a_d0 + rho * (UNIT - k),
                0 <= rho < UNIT,
                (UNIT + k) * a_d0 >= 2 * UNIT * (UNIT - k),
                -UNIT < k <= 0,
                0 <= a_d0,
                UNIT == 480000,
        ;
        assert(a_d2 <= a_d0 - (UNIT - k)) by (nonlinear_arith)
            requires
                UNIT * a_d2 <= UNIT * (a_d0 - (UNIT - k)),
                UNIT == 480000,
        ;
    }
    if (UNIT + k) * a_d0 <= band {
        assert(UNIT * ((UNIT + k) * a_d2) <= (UNIT + k) * ((-k) * a_d0 + rho * (UNIT - k)))
            by (nonlinear_arith)
            requires
                UNIT * a_d2 <= (-k) * a_d0 + rho * (UNIT - k),
                UNIT + k >= 0,
                UNIT == 480000,
        ;
        assert((UNIT + k) * ((-k) * a_d0) <= (-k) * (2 * UNIT * (UNIT - k))) by (nonlinear_arith)
            requires
                (UNIT + k) * a_d0 <= 2 * UNIT * (UNIT - k),
                -k >= 0,
        ;
        assert((UNIT + k) * (rho * (UNIT - k)) <= (UNIT + k) * (UNIT * (UNIT - k)))
            by (nonlinear_arith)
            requires
                0 <= rho < UNIT,
                UNIT + k >= 0,
                UNIT - k >= 0,
        ;
        assert((UNIT + k) * ((-k) * a_d0 + rho * (UNIT - k)) <= (-k) * (2 * UNIT * (UNIT - k)) + (
        UNIT + k) * (UNIT * (UNIT - k))) by (nonlinear_arith)
            requires
                (UNIT + k) * ((-k) * a_d0) <= (-k) * (2 * UNIT * (UNIT - k)),
                (UNIT + k) * (rho * (UNIT - k)) <= (UNIT + k) * (UNIT * (UNIT - k)),
        ;
        assert((-k) * (2 * UNIT * (UNIT - k)) + (UNIT + k) * (UNIT * (UNIT - k)) == UNIT * ((UNIT
            - k) * (UNIT - k))) by (nonlinear_arith);
        assert(UNIT * ((UNIT - k) * (UNIT - k)) <= UNIT * (2 * UNIT * (UNIT - k)))
            by (nonlinear_arith)
            requires
                0 <= UNIT - k,
                UNIT - k <= 2 * UNIT,
                UNIT == 480000,
        ;
        assert((UNIT + k) * a_d2 <= 2 * UNIT * (UNIT - k)) by (nonlinear_arith)
            requires
                UNIT * ((UNIT + k) * a_d2) <= UNIT * (2 * UNIT * (UNIT - k)),
                UNIT == 480000,
        ;
    }
}

/// Descent invariant behind the settling law: after `n` steps the
/// scaled gap is either already inside the band or has shrunk by at
/// least `UNIT - k` per step.
proof fn lemma_hpf_dc_descent(k: i64, c: i64, y0: i64, ins: Seq<i64>)
    requires
        -UNIT < k <= 0,
        -SAMPLE_MAX <= c <= SAMPLE_MAX,
        -SAMPLE_MAX <= y0 <= SAMPLE_MAX,
        forall|i: int| 0 <= i < ins.len() ==> ins[i] == c,
    ensures
        ({
            let yn = run_state(filter_step((UNIT + k) as i64, k), y0, ins);
            let d = hpf_dc_gap(k, c, yn);
            let a_d = if d >= 0 {
                d
            } else {
                -d
            };
            let d0 = hpf_dc_gap(k, c, y0);
            let a_d0 = if d0 >= 0 {
                d0
            } else {
                -d0
            };
            &&& -SAMPLE_MAX <= yn <= SAMPLE_MAX
            &&& ((UNIT + k) * a_d <= 2 * UNIT * (UNIT - k) || a_d <= a_d0 - ins.len() * (UNIT
                - k))
        }),
    decreases ins.len(),
{
    let step = filter_step((UNIT + k) as i64, k);
    if ins.len() > 0 {
        lemma_hpf_dc_descent(k, c, y0, ins.drop_last());
        let prev = run_state(step, y0, ins.drop_last());
        assert(ins.last() == c);
        lemma_hpf_step_toward_dc(k, c, prev);
        let dp = hpf_dc_gap(k, c, prev);
        let a_dp = if dp >= 0 {
            dp
        } else {
            -dp
        };
        let yn = run_state(step, y0, ins);
        let d = hpf_dc_gap(k, c, yn);
        let a_d = if d >= 0 {
            d
        } else {
            -d
        };
        let d0 = hpf_dc_gap(k, c, y0);
        let a_d0 = if d0 >= 0 {
            d0
        } else {
            -d0
        };
        if (UNIT + k) * a_d > 2 * UNIT * (UNIT - k) {
            // The step cannot have started inside the band, so the whole
            // prefix was descending.
            assert((UNIT + k) * a_dp > 2 * UNIT * (UNIT - k));
            assert(a_d <= a_dp - (UNIT - k));
            assert(a_dp <= a_d0 - (ins.len() - 1) * (UNIT - k));
            assert((ins.len() - 1) * (UNIT - k) + (UNIT - k) == ins.len() * (UNIT - k))
                by (nonlinear_arith);
        }
    } else {
        assert(0int * (UNIT - k) == 0) by (nonlinear_arith);
    }
}

/// HPF DC response: held long enough, a constant input leaves the
/// filter memory (and so the output) within a fixed band around
/// `(UNIT+k)/(UNIT-k)` times the input - the difference equation's true
/// DC gain.  As the cutoff grows toward its clamp, that gain falls
/// toward zero; the full-cutoff case below reaches zero exactly.
pub proof fn lemma_hpf_dc_settles(k: i64, c: i64, y0: i64, ins: Seq<i64>)
    requires
        -UNIT < k <= 0,
        -SAMPLE_MAX <= c <= SAMPLE_MAX,
        -SAMPLE_MAX <= y0 <= SAMPLE_MAX,
        forall|i: int| 0 <= i < ins.len() ==> ins[i] == c,
        ins.len() >= 2 * SAMPLE_MAX + 1,
    ensures
        ({
            let yn = run_state(filter_step((UNIT + k) as i64, k), y0, ins);
            let d = hpf_dc_gap(k, c, yn);
            (UNIT + k) * (if d >= 0 {
                d
            } else {
                -d
            }) <= 2 * UNIT * (UNIT - k)
        }),
{
    lemma_hpf_dc_descent(k, c, y0, ins);
    let yn = run_state(filter_step((UNIT + k) as i64, k), y0, ins);
    let d = hpf_dc_gap(k, c, yn);
    let a_d = if d >= 0 {
        d
    } else {
        -d
    };
    let d0 = hpf_dc_gap(k, c, y0);
    let a_d0 = if d0 >= 0 {
        d0
    } else {
        -d0
    };
    if (UNIT + k) * a_d > 2 * UNIT * (UNIT - k) {
        assert(a_d <= a_d0 - ins.len() * (UNIT - k));
        assert(a_d0 <= 2 * UNIT * SAMPLE_MAX) by (nonlinear_arith)
            requires
                d0 == y0 * (UNIT - k) - (UNIT + k) * c,
                a_d0 == (if d0 >= 0 {
                    d0
                } else {
                    -d0
                }),
                -UNIT < k <= 0,
                -SAMPLE_MAX <= c <= SAMPLE_MAX,
                -SAMPLE_MAX <= y0 <= SAMPLE_MAX,
                UNIT == 480000,
        ;
        assert(ins.len() * (UNIT - k) > 2 * UNIT * SAMPLE_MAX) by (nonlinear_arith)
            requires
                ins.len() >= 2 * SAMPLE_MAX + 1,
                UNIT - k >= UNIT,
                UNIT == 480000,
                SAMPLE_MAX == 0x8000_0000,
        ;
        assert(false);
    }
}

/// At the largest cutoff the high-pass coefficient reaches `-UNIT` and
/// the filter blocks everything at DC: from a zero memory, every output
/// sample is zero whatever the input.  For smaller cutoffs the
/// difference equation's DC gain is `(UNIT+k)/(UNIT-k)`, which is not
/// zero; this lemma states the exact-zero case.
pub proof fn lemma_hpf_blocks_dc_at_full_cutoff(ins: Seq<i64>)
    ensures
        run_state(filter_step(0i64, (-UNIT) as i64), 0i64, ins) == 0i64,
        forall|i: int|
            0 <= i < ins.len() ==> #[trigger] run_out(
                filter_step(0i64, (-UNIT) as i64),
                0i64,
                ins,
            )[i] == 0i64,
    decreases ins.len(),
{
    let step = filter_step(0i64, (-UNIT) as i64);
    crate::runner::lemma_run_out_len(step, 0i64, ins);
    if ins.len() > 0 {
        lemma_hpf_blocks_dc_at_full_cutoff(ins.drop_last());
        crate::runner::lemma_run_out_len(step, 0i64, ins.drop_last());
        let x = ins.last();
        assert(0 * x == 0) by (nonlinear_arith);
        assert((-UNIT) * 0 == 0) by (nonlinear_arith);
        assert(step(0i64, x).0 == 0i64) by {
            vstd::arithmetic::div_mod::lemma_div_of0(UNIT as int);
        }
        assert(forall|i: int|
            0 <= i < ins.len() - 1 ==> #[trigger] run_out(step, 0i64, ins)[i] == run_out(
                step,
                0i64,
                ins.drop_last(),
            )[i]);
    }
}

} // verus!
