//! A modular, block-based audio synthesis engine over fixed-point samples.
//!
//! Signals are pulled through a graph of operators, one fixed-size block of
//! samples at a time.  A sample is an `i64` in fixed-point representation:
//! the value `UNIT` stands for an amplitude (or control voltage) of one.
//! All per-sample arithmetic saturates at `SAMPLE_MAX`, so no operation
//! overflows or panics.

use vstd::prelude::*;

pub mod sample;
pub mod runner;
pub mod math;
pub mod comparators;
pub mod detect;
pub mod sources;
pub mod filter;
pub mod envelope;
pub mod delay;
pub mod branch;
pub mod scales;
pub mod sinks;

pub use sources::Clock;
pub use sources::Const;
pub use sources::Gate;
pub use sources::Saw;
pub use sources::Silence;
pub use sources::Sine;
pub use sources::Square;
pub use sources::Triangle;
pub use sources::WhiteNoise;
pub use sinks::AudioOut;
pub use sinks::MemoryOut;
pub use sinks::Sink;

use crate::sample::sample_wf;
use crate::sample::seq_wf;
use crate::sample::tdiv;
use crate::branch::SequentialSwitch;
use crate::branch::Tap;
use crate::comparators::EqualTo;
use crate::comparators::GreaterThan;
use crate::comparators::GreaterThanOrEqualTo;
use crate::comparators::LessThan;
use crate::comparators::LessThanOrEqualTo;
use crate::comparators::NotEqualTo;
use crate::delay::Delay;
use crate::detect::Trigger;
use crate::detect::TriggerState;
use crate::envelope::Ad;
use crate::math::Abs;
use crate::math::Add;
use crate::math::Clip;
use crate::math::Invert;
use crate::math::Max;
use crate::math::Min;
use crate::math::Mix;
use crate::math::Mul;
use crate::math::Sub;
use crate::scales::QuantizeMode;
use crate::scales::Quantizer;
use vstd::arithmetic::power2::pow2;

verus! {

/// Number of samples in one block.
pub const BLOCK_SIZE: usize = 64;

/// Fixed-point scale: this integer stands for the real value 1.0.
/// It is divisible by 12 (so a semitone of control voltage is exact)
/// and by every sample rate of the form 48000/k.
pub const UNIT: i64 = 480000;

/// Largest representable sample magnitude (about 4473 in real units).
pub const SAMPLE_MAX: i64 = 0x8000_0000;

/// Largest base frequency, in fixed-point Hz, that an oscillator accepts.
pub const FREQ_MAX: i64 = 0x400_0000_0000;

/// Smallest supported sample rate, Hz.
pub const MIN_SAMPLE_RATE: u32 = 8000;

/// Largest supported sample rate, Hz.
pub const MAX_SAMPLE_RATE: u32 = 192000;

/// Cap on the running sample counter, far beyond any realistic session.
pub const MAX_SAMPLE_COUNT: u64 = 0x100_0000_0000;

/// Whole octaves of control voltage beyond this saturate the frequency map.
pub const OCTAVE_CAP: i64 = 44;

/// The error surfaced by construction-time validation.
#[derive(Debug, Clone, Copy, PartialEq, Eq, Structural)]
pub enum SynthError {
    InvalidParameter,
}

/// A fixed-size buffer of samples, the unit of signal flow.
#[derive(Debug)]
pub struct Block {
    samples: Vec<i64>,
}

impl View for Block {
    type V = Seq<i64>;

    closed spec fn view(&self) -> Seq<i64> {
        self.samples@
    }
}

/// A block is well formed when it has exactly `BLOCK_SIZE` samples,
/// each within the representable range.
pub open spec fn block_wf(b: Block) -> bool {
    b@.len() == BLOCK_SIZE && seq_wf(b@)
}

/// A block-sized sequence holding `v` in every lane.
pub open spec fn const_seq(v: i64) -> Seq<i64> {
    Seq::new(BLOCK_SIZE as nat, |i: int| v)
}

/// The all-zero block, as a sequence.
pub open spec fn silence_seq() -> Seq<i64> {
    const_seq(0)
}

impl Block {
    /// A block of zeros.
    pub fn silence() -> (b: Block)
        ensures
            b@ == silence_seq(),
            block_wf(b),
    {
        let mut samples: Vec<i64> = Vec::new();
        let mut i: usize = 0;
        while i < BLOCK_SIZE
            invariant
                i <= BLOCK_SIZE,
                samples@.len() == i,
                forall|j: int| 0 <= j < i ==> samples@[j] == 0i64,
            decreases BLOCK_SIZE - i,
        {
            samples.push(0);
            i += 1;
        }
        proof {
            assert(samples@ =~= silence_seq());
        }
        Block { samples }
    }

    /// A block holding `v` in every lane.
    pub fn constant(v: i64) -> (b: Block)
        requires
            sample_wf(v),
        ensures
            b@ == const_seq(v),
            block_wf(b),
    {
        let mut samples: Vec<i64> = Vec::new();
        let mut i: usize = 0;
        while i < BLOCK_SIZE
            invariant
                i <= BLOCK_SIZE,
                sample_wf(v),
                samples@.len() == i,
                forall|j: int| 0 <= j < i ==> samples@[j] == v,
            decreases BLOCK_SIZE - i,
        {
            samples.push(v);
            i += 1;
        }
        proof {
            assert(samples@ =~= const_seq(v));
        }
        Block { samples }
    }

    /// Wrap a vector of `BLOCK_SIZE` in-range samples.
    pub fn from_samples(samples: Vec<i64>) -> (b: Block)
        requires
            samples@.len() == BLOCK_SIZE,
            seq_wf(samples@),
        ensures
            b@ == samples@,
            block_wf(b),
    {
        Block { samples }
    }

    /// Read one sample.
    pub fn get(&self, i: usize) -> (s: i64)
        requires
            i < self@.len(),
        ensures
            s == self@[i as int],
    {
        self.samples[i]
    }

    /// Borrow the underlying samples.
    pub fn samples(&self) -> (v: &Vec<i64>)
        ensures
            v@ == self@,
    {
        &self.samples
    }
}

impl Clone for Block {
    fn clone(&self) -> (b: Block)
        ensures
            b@ == self@,
    {
        let mut samples: Vec<i64> = Vec::new();
        let mut i: usize = 0;
        while i < self.samples.len()
            invariant
                i <= self.samples@.len(),
                samples@ == self.samples@.take(i as int),
            decreases self.samples@.len() - i,
        {
            let s = self.samples[i];
            samples.push(s);
            proof {
                assert(samples@ =~= self.samples@.take(i + 1));
            }
            i += 1;
        }
        proof {
            assert(samples@ =~= self.samples@);
        }
        Block { samples }
    }
}

/// Global time state: the immutable sample rate and the running count of
/// samples rendered so far.  The driver advances the count by `BLOCK_SIZE`
/// after each tick.
#[derive(Debug)]
pub struct SynthContext {
    pub sample_rate: u32,
    pub sample_count: u64,
}

/// A context is well formed when its rate is a supported one and its
/// counter has not outrun the session cap.
pub open spec fn ctx_wf(ctx: SynthContext) -> bool {
    MIN_SAMPLE_RATE <= ctx.sample_rate <= MAX_SAMPLE_RATE
        && ctx.sample_count <= MAX_SAMPLE_COUNT
}

impl SynthContext {
    /// Build a context.  Rejects sample rates outside the supported range.
    pub fn new(sample_rate: u32) -> (r: Result<SynthContext, SynthError>)
        ensures
            MIN_SAMPLE_RATE <= sample_rate <= MAX_SAMPLE_RATE <==> r is Ok,
            r matches Ok(ctx) ==> ctx.sample_rate == sample_rate && ctx.sample_count == 0
                && ctx_wf(ctx),
            r matches Err(e) ==> e == SynthError::InvalidParameter,
    {
        if MIN_SAMPLE_RATE <= sample_rate && sample_rate <= MAX_SAMPLE_RATE {
            Ok(SynthContext { sample_rate, sample_count: 0 })
        } else {
            Err(SynthError::InvalidParameter)
        }
    }

    /// The sample rate, Hz.
    pub fn sample_rate(&self) -> (r: u32)
        ensures
            r == self.sample_rate,
    {
        self.sample_rate
    }

    /// The running sample count.
    pub fn sample_count(&self) -> (c: u64)
        ensures
            c == self.sample_count,
    {
        self.sample_count
    }

    /// Duration of one sample in fixed-point seconds, `UNIT / rate`
    /// truncated.  At least 2 for every supported rate.
    pub fn sample_time(&self) -> (dt: i64)
        requires
            ctx_wf(*self),
        ensures
            dt == sample_time_spec(*self),
            2 <= dt <= 60,
    {
        proof {
            vstd::arithmetic::div_mod::lemma_div_is_ordered_by_denominator(
                UNIT as int,
                MIN_SAMPLE_RATE as int,
                self.sample_rate as int,
            );
            vstd::arithmetic::div_mod::lemma_div_is_ordered_by_denominator(
                UNIT as int,
                self.sample_rate as int,
                MAX_SAMPLE_RATE as int,
            );
        }
        UNIT / (self.sample_rate as i64)
    }

    /// Elapsed time in fixed-point seconds, `count * UNIT / rate` truncated.
    pub fn time(&self) -> (t: i64)
        requires
            ctx_wf(*self),
        ensures
            t == (self.sample_count * UNIT) as i64 / (self.sample_rate as i64),
    {
        ((self.sample_count as i64) * UNIT) / (self.sample_rate as i64)
    }

    /// Advance the counter by one block.
    fn update(&mut self)
        requires
            ctx_wf(*old(self)),
            old(self).sample_count + BLOCK_SIZE <= MAX_SAMPLE_COUNT,
        ensures
            final(self).sample_rate == old(self).sample_rate,
            final(self).sample_count == old(self).sample_count + BLOCK_SIZE,
            ctx_wf(*final(self)),
    {
        self.sample_count = self.sample_count + (BLOCK_SIZE as u64);
    }
}

/// Duration of one sample in fixed-point seconds.
pub open spec fn sample_time_spec(ctx: SynthContext) -> i64 {
    (UNIT as int / ctx.sample_rate as int) as i64
}

/// Clamp an unbounded integer into the representable frequency range.
pub open spec fn freq_sat(x: int) -> i64 {
    if x > FREQ_MAX {
        FREQ_MAX
    } else if x < -FREQ_MAX {
        (-FREQ_MAX) as i64
    } else {
        x as i64
    }
}

/// The volts-per-octave map in fixed point: one whole unit of control
/// voltage doubles the frequency; within an octave the scale grows
/// linearly with the fractional part.  Octave shifts beyond `OCTAVE_CAP`
/// saturate, as does the resulting frequency.
pub open spec fn volt_octave_spec(frequency: i64, cv: i64) -> i64 {
    let o = cv as int / UNIT as int;
    let r = cv as int % UNIT as int;
    let base = tdiv(frequency * (UNIT + r), UNIT as int);
    if o >= 0 {
        let k = if o > OCTAVE_CAP {
            OCTAVE_CAP as nat
        } else {
            o as nat
        };
        freq_sat(base * pow2(k))
    } else {
        let k = if -o > OCTAVE_CAP {
            OCTAVE_CAP as nat
        } else {
            (-o) as nat
        };
        freq_sat(tdiv(base, pow2(k) as int))
    }
}

/// Executable clamp into the frequency range.
fn freq_sat_x(x: i64) -> (r: i64)
    ensures
        r == freq_sat(x as int),
        -FREQ_MAX <= r <= FREQ_MAX,
{
    if x > FREQ_MAX {
        FREQ_MAX
    } else if x < -FREQ_MAX {
        -FREQ_MAX
    } else {
        x
    }
}

/// Scale `frequency` by two to the power of `volt_octave` (both fixed
/// point): the exponential frequency map of the control-voltage
/// convention.
pub fn volt_octave(frequency: i64, cv: i64) -> (r: i64)
    requires
        -FREQ_MAX <= frequency <= FREQ_MAX,
        sample_wf(cv),
    ensures
        r == volt_octave_spec(frequency, cv),
        -FREQ_MAX <= r <= FREQ_MAX,
{
    let rfrac = sample::emod_x(cv, UNIT);
    let o: i64 = if cv >= rfrac {
        (((cv - rfrac) as u64) / (UNIT as u64)) as i64
    } else {
        -((((rfrac - cv) as u64) / (UNIT as u64)) as i64)
    };
    proof {
        let q = cv as int / UNIT as int;
        vstd::arithmetic::div_mod::lemma_fundamental_div_mod(cv as int, UNIT as int);
        assert(cv as int - rfrac == UNIT * q);
        if cv >= rfrac {
            vstd::arithmetic::div_mod::lemma_div_multiples_vanish(q, UNIT as int);
        } else {
            vstd::arithmetic::div_mod::lemma_div_multiples_vanish(-q, UNIT as int);
            assert(rfrac - cv as int == UNIT * -q);
        }
        assert(o == q);
    }
    proof {
        assert(-(FREQ_MAX * (2 * UNIT)) <= frequency * (UNIT + rfrac) <= FREQ_MAX * (2 * UNIT))
            by (nonlinear_arith)
            requires
                -FREQ_MAX <= frequency <= FREQ_MAX,
                0 <= rfrac < UNIT,
        ;
    }
    let prod = frequency * (UNIT + rfrac);
    let base = sample::div_unit(prod);
    proof {
        vstd::arithmetic::div_mod::lemma_div_multiples_vanish(2 * FREQ_MAX, UNIT as int);
        if prod >= 0 {
            vstd::arithmetic::div_mod::lemma_div_is_ordered(
                prod as int,
                FREQ_MAX * (2 * UNIT),
                UNIT as int,
            );
        } else {
            vstd::arithmetic::div_mod::lemma_div_is_ordered(
                -(prod as int),
                FREQ_MAX * (2 * UNIT),
                UNIT as int,
            );
        }
        assert(-(2 * FREQ_MAX) <= base <= 2 * FREQ_MAX);
    }
    let ghost base_g = base as int;
    if o >= 0 {
        let k_end: i64 = if o > OCTAVE_CAP {
            OCTAVE_CAP
        } else {
            o
        };
        let mut cur = freq_sat_x(base);
        let mut k: i64 = 0;
        proof {
            vstd::arithmetic::power2::lemma2_to64();
            assert(base_g * pow2(0) == base_g) by (nonlinear_arith)
                requires
                    pow2(0) == 1,
            ;
        }
        while k < k_end
            invariant
                0 <= k <= k_end <= OCTAVE_CAP,
                -FREQ_MAX <= cur <= FREQ_MAX,
                cur == freq_sat(base_g * pow2(k as nat)),
            decreases k_end - k,
        {
            let doubled = cur * 2;
            proof {
                let p2 = pow2(k as nat) as int;
                vstd::arithmetic::power2::lemma_pow2_unfold((k + 1) as nat);
                assert(base_g * (2 * p2) == 2 * (base_g * p2)) by (nonlinear_arith);
            }
            cur = freq_sat_x(doubled);
            k += 1;
        }
        cur
    } else {
        let no = -o;
        let k_end: i64 = if no > OCTAVE_CAP {
            OCTAVE_CAP
        } else {
            no
        };
        let mut d: i64 = 1;
        let mut k: i64 = 0;
        proof {
            vstd::arithmetic::power2::lemma2_to64();
        }
        while k < k_end
            invariant
                0 <= k <= k_end <= OCTAVE_CAP,
                d == pow2(k as nat),
                1 <= d <= 0x1000_0000_0000,
            decreases k_end - k,
        {
            proof {
                vstd::arithmetic::power2::lemma_pow2_unfold((k + 1) as nat);
                vstd::arithmetic::power2::lemma2_to64_rest();
                if k + 1 < 44 {
                    vstd::arithmetic::power2::lemma_pow2_strictly_increases((k + 1) as nat, 44);
                }
            }
            d = d * 2;
            k += 1;
        }
        let q = sample::div_pos(base, d);
        freq_sat_x(q)
    }
}

/// The capability every signal node offers: render one block, possibly
/// mutating internal state.  Each operator abstracts its state into a
/// mathematical model; `m_out` gives the block a model produces in a
/// given context, `m_next` the model it steps to, and rendering realizes
/// exactly that.
pub trait Operator: Sized {
    /// The mathematical state of the operator.
    type Model;

    /// The model of the current state.
    spec fn model(self) -> Self::Model;

    /// The model's invariant.
    spec fn m_wf(m: Self::Model) -> bool;

    /// The block a state with model `m` produces in context `ctx`.
    spec fn m_out(m: Self::Model, ctx: SynthContext) -> Seq<i64>;

    /// The model after one render in context `ctx`.
    spec fn m_next(m: Self::Model, ctx: SynthContext) -> Self::Model;

    /// Pull one block.
    fn render(&mut self, ctx: &SynthContext) -> (b: Block)
        requires
            Self::m_wf(old(self).model()),
            ctx_wf(*ctx),
        ensures
            b@ == Self::m_out(old(self).model(), *ctx),
            block_wf(b),
            final(self).model() == Self::m_next(old(self).model(), *ctx),
            Self::m_wf(final(self).model()),
    ;
}

/// Builder methods that wrap an operator in the combinators.  All of
/// them are pure constructors; the computation happens in `render`.
pub trait OperatorExt: Operator {
    /// Per-sample saturating sum with `rhs`.
    fn add<Rhs: Operator>(self, rhs: Rhs) -> (r: Add<Self, Rhs>)
        ensures
            r == (Add { lhs: self, rhs }),
    {
        Add { lhs: self, rhs }
    }

    /// Per-sample saturating difference with `rhs`.
    fn sub<Rhs: Operator>(self, rhs: Rhs) -> (r: Sub<Self, Rhs>)
        ensures
            r == (Sub { lhs: self, rhs }),
    {
        Sub { lhs: self, rhs }
    }

    /// Per-sample saturating product with `rhs`.
    fn mul<Rhs: Operator>(self, rhs: Rhs) -> (r: Mul<Self, Rhs>)
        ensures
            r == (Mul { lhs: self, rhs }),
    {
        Mul { lhs: self, rhs }
    }

    /// Symmetric clamp to the magnitude of `level`.
    fn clip<Cv: Operator>(self, level: Cv) -> (r: Clip<Self, Cv>)
        ensures
            r == (Clip { input: self, level }),
    {
        Clip { input: self, level }
    }

    /// Mix `rhs` in, scaled by `level`.
    fn mix<Rhs: Operator, Cv: Operator>(self, rhs: Rhs, level: Cv) -> (r: Mix<Self, Rhs, Cv>)
        ensures
            r == (Add { lhs: self, rhs: Mul { lhs: rhs, rhs: level } }),
    {
        Add { lhs: self, rhs: Mul { lhs: rhs, rhs: level } }
    }

    /// Per-sample lane minimum with `rhs`.
    fn min<Rhs: Operator>(self, rhs: Rhs) -> (r: Min<Self, Rhs>)
        ensures
            r == (Min { lhs: self, rhs }),
    {
        Min { lhs: self, rhs }
    }

    /// Per-sample lane maximum with `rhs`.
    fn max<Rhs: Operator>(self, rhs: Rhs) -> (r: Max<Self, Rhs>)
        ensures
            r == (Max { lhs: self, rhs }),
    {
        Max { lhs: self, rhs }
    }

    /// Per-sample absolute value.
    fn abs(self) -> (r: Abs<Self>)
        ensures
            r == (Abs { input: self }),
    {
        Abs { input: self }
    }

    /// Per-sample negation.
    fn invert(self) -> (r: Invert<Self>)
        ensures
            r == (Invert { input: self }),
    {
        Invert { input: self }
    }

    /// Wrap in a rising-edge detector.
    fn trigger(self) -> (r: Trigger<Self>)
        ensures
            r == (Trigger { input: self, previous_sample: TriggerState::Low }),
    {
        Trigger { input: self, previous_sample: TriggerState::Low }
    }

    /// Use this signal as the clock of a sequential switch over `signals`.
    fn sequential_switch<S: Operator>(self, signals: Vec<S>) -> (r: SequentialSwitch<Self, S>)
        requires
            signals@.len() >= 1,
        ensures
            r.trigger == (Trigger { input: self, previous_sample: TriggerState::Low }),
            r.signals == signals,
            r.index == 0,
    {
        SequentialSwitch::new(
            Trigger { input: self, previous_sample: TriggerState::Low },
            signals,
        )
    }

    /// Use this signal to trigger an attack/decay envelope.
    fn ad_envelope<A: Operator, D: Operator>(self, attack: A, decay: D) -> (r: Ad<A, D, Self>)
        ensures
            r.attack == attack,
            r.decay == decay,
            r.trigger == (Trigger { input: self, previous_sample: TriggerState::Low }),
            r.time is None,
    {
        crate::envelope::ad(self, attack, decay)
    }

    /// Delay by `time` fixed-point seconds.
    fn delay(self, time: i64, sample_rate: u32) -> (r: Result<Delay<Self>, SynthError>)
        requires
            MIN_SAMPLE_RATE <= sample_rate <= MAX_SAMPLE_RATE,
        ensures
            r matches Ok(d) ==> d.input == self && d.length == crate::delay::delay_len(
                time,
                sample_rate,
            ) && d.buffer@ == Seq::<i64>::empty(),
            r is Ok <==> (0 <= time <= crate::delay::MAX_DELAY_TIME && crate::delay::delay_len(
                time,
                sample_rate,
            ) <= crate::delay::MAX_DELAY_SAMPLES),
    {
        Delay::delay(self, time, sample_rate)
    }

    /// Wrap in a memoizing tap.
    fn tap(self) -> (r: Tap<Self>)
        ensures
            r.input == self,
            r.block@ == silence_seq(),
            r.count is None,
    {
        Tap::tap(self)
    }

    /// Snap to a scale.
    fn quantize(self, mode: QuantizeMode) -> (r: Quantizer<Self>)
        ensures
            r == (Quantizer { input: self, mode }),
    {
        Quantizer { input: self, mode }
    }

    /// Per-sample comparison: 1 where `self > rhs`.
    fn greater_than<Rhs: Operator>(self, rhs: Rhs) -> (r: GreaterThan<Self, Rhs>)
        ensures
            r == (GreaterThan { lhs: self, rhs }),
    {
        GreaterThan { lhs: self, rhs }
    }

    /// Per-sample comparison: 1 where `self >= rhs`.
    fn greater_than_or_equal_to<Rhs: Operator>(self, rhs: Rhs) -> (r: GreaterThanOrEqualTo<
        Self,
        Rhs,
    >)
        ensures
            r == (GreaterThanOrEqualTo { lhs: self, rhs }),
    {
        GreaterThanOrEqualTo { lhs: self, rhs }
    }

    /// Per-sample comparison: 1 where `self < rhs`.
    fn less_than<Rhs: Operator>(self, rhs: Rhs) -> (r: LessThan<Self, Rhs>)
        ensures
            r == (LessThan { lhs: self, rhs }),
    {
        LessThan { lhs: self, rhs }
    }

    /// Per-sample comparison: 1 where `self <= rhs`.
    fn less_than_or_equal_to<Rhs: Operator>(self, rhs: Rhs) -> (r: LessThanOrEqualTo<Self, Rhs>)
        ensures
            r == (LessThanOrEqualTo { lhs: self, rhs }),
    {
        LessThanOrEqualTo { lhs: self, rhs }
    }

    /// Per-sample comparison: 1 where `self == rhs`.
    fn equal_to<Rhs: Operator>(self, rhs: Rhs) -> (r: EqualTo<Self, Rhs>)
        ensures
            r == (EqualTo { lhs: self, rhs }),
    {
        EqualTo { lhs: self, rhs }
    }

    /// Per-sample comparison: 1 where `self != rhs`.
    fn not_equal_to<Rhs: Operator>(self, rhs: Rhs) -> (r: NotEqualTo<Self, Rhs>)
        ensures
            r == (NotEqualTo { lhs: self, rhs }),
    {
        NotEqualTo { lhs: self, rhs }
    }
}

impl<T: Operator> OperatorExt for T {}

} // verus!
