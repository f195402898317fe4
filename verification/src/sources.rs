//! Signal sources: silence, constants, oscillators, white noise, clocks.

use vstd::prelude::*;

use crate::Block;
use crate::Operator;
use crate::SynthContext;
use crate::FREQ_MAX;
use crate::MAX_SAMPLE_RATE;
use crate::MIN_SAMPLE_RATE;
use crate::BLOCK_SIZE;
use crate::OCTAVE_CAP;
use crate::UNIT;
use crate::const_seq;
use crate::freq_sat;
use crate::silence_seq;
use crate::volt_octave_spec;
use crate::runner::run_out;
use crate::runner::run_state;
use crate::runner::ticks;
use crate::sample;
use crate::sample::sample_wf;
use crate::sample::seq_wf;
use crate::sample::tdiv;
use vstd::arithmetic::power2::pow2;

verus! {

/// Longest representable pulse interval, in fixed-point seconds (one hour).
pub const MAX_INTERVAL_SEC: i64 = 1728000000;

/// Largest sample count one pulse interval can span.
pub const MAX_TICKS: u64 = 691200000;

/// The source that emits zeros forever.
#[derive(Debug, Clone, Copy)]
pub struct Silence;

impl Operator for Silence {
    type Model = ();

    open spec fn model(self) -> Self::Model {
        ()
    }

    open spec fn m_wf(m: Self::Model) -> bool {
        true
    }

    open spec fn m_out(m: Self::Model, ctx: SynthContext) -> Seq<i64> {
        silence_seq()
    }

    open spec fn m_next(m: Self::Model, ctx: SynthContext) -> Self::Model {
        m
    }

    fn render(&mut self, ctx: &SynthContext) -> (b: Block) {
        Block::silence()
    }
}

/// The source that emits one fixed sample value in every lane.
#[derive(Debug, Clone, Copy)]
pub struct Const(pub i64);

impl Operator for Const {
    type Model = i64;

    open spec fn model(self) -> Self::Model {
        self.0
    }

    open spec fn m_wf(m: Self::Model) -> bool {
        sample_wf(m)
    }

    open spec fn m_out(m: Self::Model, ctx: SynthContext) -> Seq<i64> {
        const_seq(m)
    }

    open spec fn m_next(m: Self::Model, ctx: SynthContext) -> Self::Model {
        m
    }

    fn render(&mut self, ctx: &SynthContext) -> (b: Block) {
        Block::constant(self.0)
    }
}

impl Operator for i64 {
    type Model = i64;

    /// A bare sample value acts as a constant source.
    open spec fn model(self) -> Self::Model {
        self
    }

    open spec fn m_wf(m: Self::Model) -> bool {
        sample_wf(m)
    }

    open spec fn m_out(m: Self::Model, ctx: SynthContext) -> Seq<i64> {
        const_seq(m)
    }

    open spec fn m_next(m: Self::Model, ctx: SynthContext) -> Self::Model {
        m
    }

    fn render(&mut self, ctx: &SynthContext) -> (b: Block) {
        Block::constant(*self)
    }
}

/// A pulse interval in samples: `interval_sec * rate / UNIT`, rounded up.
pub open spec fn clock_interval(interval_sec: i64, rate: u32) -> u64 {
    (((interval_sec * rate) + (UNIT - 1)) / (UNIT as int)) as u64
}

/// The interval, in fixed-point seconds, of a pulse train at `bpm` beats
/// per minute (fixed point): `60 / bpm` seconds, truncated, clamped into
/// `[0, MAX_INTERVAL_SEC]`; a bpm of zero or less gets the longest
/// interval.
pub open spec fn bpm_interval_sec(bpm: i64) -> i64 {
    if bpm <= 0 {
        MAX_INTERVAL_SEC
    } else {
        let q = (60 * UNIT * UNIT) / (bpm as int);
        if q > MAX_INTERVAL_SEC {
            MAX_INTERVAL_SEC
        } else {
            q as i64
        }
    }
}

/// One step of the clock counter: fire and restart the count once the
/// completed-sample counter has reached the interval, else count on.
pub open spec fn clock_step(interval: u64) -> spec_fn(u64, ()) -> (u64, i64) {
    |c: u64, t: ()|
        if c >= interval {
            (1u64, UNIT)
        } else {
            ((c + 1) as u64, 0i64)
        }
}

/// Executable pulse interval in samples.
fn interval_len(interval_sec: i64, rate: u32) -> (n: u64)
    requires
        0 <= interval_sec <= MAX_INTERVAL_SEC,
        MIN_SAMPLE_RATE <= rate <= MAX_SAMPLE_RATE,
    ensures
        n == clock_interval(interval_sec, rate),
        n <= MAX_TICKS,
{
    proof {
        assert(interval_sec * rate <= 331776000000000) by (nonlinear_arith)
            requires
                0 <= interval_sec <= 1728000000,
                0 <= rate <= 192000,
        ;
        assert(interval_sec * rate >= 0) by (nonlinear_arith)
            requires
                0 <= interval_sec,
                0 <= rate,
        ;
    }
    let prod = (interval_sec as u64) * (rate as u64);
    let n = (prod + ((UNIT - 1) as u64)) / (UNIT as u64);
    proof {
        vstd::arithmetic::div_mod::lemma_div_is_ordered(
            prod as int + (UNIT - 1),
            331776000000000 + (UNIT - 1),
            UNIT as int,
        );
    }
    n
}

/// Emits a one-sample pulse of `UNIT` every `interval` samples, 0
/// otherwise; the completed-sample counter restarts when the pulse fires,
/// and the first pulse fires when the counter first reaches the interval.
#[derive(Debug, Clone)]
pub struct Clock {
    pub interval_sec: i64,
    pub completed: u64,
}

impl Clock {
    /// A clock beating at `bpm` beats per minute, fixed point.
    pub fn bpm(bpm: i64) -> (c: Clock)
        ensures
            c.interval_sec == bpm_interval_sec(bpm),
            c.completed == 0,
            Clock::m_wf(c.model()),
    {
        let interval_sec: i64 = if bpm <= 0 {
            MAX_INTERVAL_SEC
        } else {
            let q = (60u64 * (UNIT as u64) * (UNIT as u64)) / (bpm as u64);
            if q > (MAX_INTERVAL_SEC as u64) {
                MAX_INTERVAL_SEC
            } else {
                q as i64
            }
        };
        Clock { interval_sec, completed: 0 }
    }
}

impl Operator for Clock {
    type Model = (i64, u64);

    open spec fn model(self) -> Self::Model {
        (self.interval_sec, self.completed)
    }

    open spec fn m_wf(m: Self::Model) -> bool {
        0 <= m.0 <= MAX_INTERVAL_SEC && m.1 <= MAX_TICKS
    }

    open spec fn m_out(m: Self::Model, ctx: SynthContext) -> Seq<i64> {
        run_out(clock_step(clock_interval(m.0, ctx.sample_rate)), m.1, ticks(BLOCK_SIZE as nat))
    }

    open spec fn m_next(m: Self::Model, ctx: SynthContext) -> Self::Model {
        (
            m.0,
            run_state(
                clock_step(clock_interval(m.0, ctx.sample_rate)),
                m.1,
                ticks(BLOCK_SIZE as nat),
            ),
        )
    }

    fn render(&mut self, ctx: &SynthContext) -> (b: Block) {
        let interval = interval_len(self.interval_sec, ctx.sample_rate());
        let ghost step = clock_step(interval);
        let ghost ins = ticks(BLOCK_SIZE as nat);
        let ghost s0 = self.completed;
        let mut st = self.completed;
        let mut samples: Vec<i64> = Vec::new();
        let mut i: usize = 0;
        while i < BLOCK_SIZE
            invariant
                i <= BLOCK_SIZE,
                interval <= MAX_TICKS,
                step == clock_step(interval),
                ins == ticks(BLOCK_SIZE as nat),
                st == run_state(step, s0, ins.take(i as int)),
                samples@ == run_out(step, s0, ins.take(i as int)),
                samples@.len() == i,
                seq_wf(samples@),
                st <= MAX_TICKS,
            decreases BLOCK_SIZE - i,
        {
            let (v, st2): (i64, u64) = if st >= interval {
                (UNIT, 1u64)
            } else {
                (0i64, st + 1)
            };
            proof {
                assert(ins.take(i + 1).drop_last() =~= ins.take(i as int));
                assert(ins.take(i + 1).last() == ());
                assert(step(st, ()) == (st2, v));
            }
            samples.push(v);
            st = st2;
            i += 1;
        }
        proof {
            assert(ins.take(BLOCK_SIZE as int) =~= ins);
        }
        self.completed = st;
        Block::from_samples(samples)
    }
}

/// Like the clock, but the output stays high for a fraction of each
/// period given by the `width` control input (0 to 1, default one half).
#[derive(Debug, Clone)]
pub struct Gate<Cv> {
    pub interval_sec: i64,
    pub completed: u64,
    pub width: Cv,
}

impl Gate<Const> {
    /// A gate beating at `bpm` beats per minute with a 50% duty cycle.
    pub fn bpm(bpm: i64) -> (g: Gate<Const>)
        ensures
            g.interval_sec == bpm_interval_sec(bpm),
            g.completed == 0,
            g.width == (Const((UNIT / 2) as i64)),
            Gate::<Const>::m_wf(g.model()),
    {
        let c = Clock::bpm(bpm);
        Gate { interval_sec: c.interval_sec, completed: 0, width: Const(UNIT / 2) }
    }
}

impl<Cv: Operator> Gate<Cv> {
    /// Replace the width control input.
    pub fn width(self, input: Cv) -> (g: Gate<Cv>)
        ensures
            g.interval_sec == self.interval_sec,
            g.completed == self.completed,
            g.width == input,
    {
        Gate { interval_sec: self.interval_sec, completed: self.completed, width: input }
    }
}

/// One step of a `Gate` counter: it fires and resets like the clock, and
/// holds the output high while the counter is below the width's share of
/// the interval.  The width sample is read as a fraction, clamped to
/// `[0, 1]`.
pub open spec fn gate_step(interval: u64) -> spec_fn(u64, i64) -> (u64, i64) {
    |c: u64, w: i64|
        {
            let wc = if w < 0 {
                0
            } else if w > UNIT {
                UNIT as int
            } else {
                w as int
            };
            let wsamp = ((wc * interval) + (UNIT - 1)) / (UNIT as int);
            if c >= interval {
                (1u64, UNIT)
            } else if c < wsamp {
                ((c + 1) as u64, UNIT)
            } else {
                ((c + 1) as u64, 0i64)
            }
        }
}

impl<Cv: Operator> Operator for Gate<Cv> {
    type Model = (i64, u64, Cv::Model);

    open spec fn model(self) -> Self::Model {
        (self.interval_sec, self.completed, self.width.model())
    }

    open spec fn m_wf(m: Self::Model) -> bool {
        0 <= m.0 <= MAX_INTERVAL_SEC && m.1 <= MAX_TICKS && Cv::m_wf(m.2)
    }

    open spec fn m_out(m: Self::Model, ctx: SynthContext) -> Seq<i64> {
        run_out(
            gate_step(clock_interval(m.0, ctx.sample_rate)),
            m.1,
            Cv::m_out(m.2, ctx),
        )
    }

    open spec fn m_next(m: Self::Model, ctx: SynthContext) -> Self::Model {
        (
            m.0,
            run_state(
                gate_step(clock_interval(m.0, ctx.sample_rate)),
                m.1,
                Cv::m_out(m.2, ctx),
            ),
            Cv::m_next(m.2, ctx),
        )
    }

    fn render(&mut self, ctx: &SynthContext) -> (b: Block) {
        let wb = self.width.render(ctx);
        let interval = interval_len(self.interval_sec, ctx.sample_rate());
        let ghost step = gate_step(interval);
        let ghost ins = wb@;
        let ghost s0 = self.completed;
        let mut st = self.completed;
        let mut samples: Vec<i64> = Vec::new();
        let mut i: usize = 0;
        while i < BLOCK_SIZE
            invariant
                i <= BLOCK_SIZE,
                interval <= MAX_TICKS,
                wb@ == ins,
                ins.len() == BLOCK_SIZE,
                step == gate_step(interval),
                st == run_state(step, s0, ins.take(i as int)),
                samples@ == run_out(step, s0, ins.take(i as int)),
                samples@.len() == i,
                seq_wf(samples@),
                st <= MAX_TICKS,
            decreases BLOCK_SIZE - i,
        {
            let w = wb.get(i);
            let wc: i64 = if w < 0 {
                0
            } else if w > UNIT {
                UNIT
            } else {
                w
            };
            proof {
                assert(wc * interval <= UNIT * interval) by (nonlinear_arith)
                    requires
                        0 <= wc <= UNIT,
                        0 <= interval,
                ;
                assert(0 <= wc * interval) by (nonlinear_arith)
                    requires
                        0 <= wc,
                        0 <= interval,
                ;
                vstd::arithmetic::div_mod::lemma_div_is_ordered(
                    wc * interval + (UNIT - 1),
                    UNIT * interval + (UNIT - 1),
                    UNIT as int,
                );
                assert((UNIT * interval + (UNIT - 1)) / (UNIT as int) <= interval + 1) by {
                    vstd::arithmetic::div_mod::lemma_div_multiples_vanish_fancy(
                        interval as int,
                        (UNIT - 1) as int,
                        UNIT as int,
                    );
                };
            }
            let wsamp = ((wc as u64) * interval + ((UNIT - 1) as u64)) / (UNIT as u64);
            let (v, st2): (i64, u64) = if st >= interval {
                (UNIT, 1u64)
            } else if st < wsamp {
                (UNIT, st + 1)
            } else {
                (0i64, st + 1)
            };
            proof {
                assert(ins.take(i + 1).drop_last() =~= ins.take(i as int));
                assert(ins.take(i + 1).last() == ins[i as int]);
                assert(step(st, w) == (st2, v));
            }
            samples.push(v);
            st = st2;
            i += 1;
        }
        proof {
            assert(ins.take(BLOCK_SIZE as int) =~= ins);
        }
        self.completed = st;
        Block::from_samples(samples)
    }
}

/// Half of one cycle, in phase units.
pub const HALF_UNIT: i64 = 240000;

/// A quarter of one cycle, in phase units.
pub const QUARTER_UNIT: i64 = 120000;

/// The parabolic arch `16 * q * (HALF_UNIT - q) / UNIT`, the positive half
/// wave of the sine approximation: 0 at both ends, `UNIT` at the crest.
pub open spec fn sine_arch(q: i64) -> i64
    recommends
        0 <= q <= HALF_UNIT,
{
    tdiv(16 * q * (HALF_UNIT - q), UNIT as int) as i64
}

/// Executable parabolic arch.
fn sine_arch_x(q: i64) -> (s: i64)
    requires
        0 <= q <= HALF_UNIT,
    ensures
        s == sine_arch(q),
        0 <= s <= UNIT,
{
    proof {
        assert(0 <= 16 * q * (HALF_UNIT - q) <= 230400000000) by (nonlinear_arith)
            requires
                0 <= q <= HALF_UNIT,
                HALF_UNIT == 240000,
        ;
    }
    let m = 16 * q * (HALF_UNIT - q);
    let s = sample::div_unit(m);
    proof {
        vstd::arithmetic::div_mod::lemma_div_is_ordered(m as int, 230400000000, UNIT as int);
    }
    s
}

/// A waveform read off a phase in `[0, UNIT)`: the shape callback of the
/// oscillator family.
pub trait PhaseSampler: Sized {
    /// The wave's value at `phase`.
    spec fn wave(self, phase: i64) -> i64;

    /// Every wave stays within one unit of amplitude.
    proof fn lemma_wave_bounded(self, phase: i64)
        requires
            0 <= phase < UNIT,
        ensures
            -UNIT <= self.wave(phase) <= UNIT,
    ;

    /// Read the wave at `phase`.
    fn sample(&self, phase: i64) -> (s: i64)
        requires
            0 <= phase < UNIT,
        ensures
            s == self.wave(phase),
            -UNIT <= s <= UNIT,
    ;
}

/// Sine wave, approximated by a parabolic arch per half cycle; exact at
/// phase 0, the crest, and the trough.
#[derive(Debug, Clone, Copy)]
pub struct Sine;

impl PhaseSampler for Sine {
    open spec fn wave(self, phase: i64) -> i64 {
        if phase < HALF_UNIT {
            sine_arch(phase)
        } else {
            (-(sine_arch((phase - HALF_UNIT) as i64) as int)) as i64
        }
    }

    proof fn lemma_wave_bounded(self, phase: i64) {
        if phase < HALF_UNIT {
            assert(0 <= 16 * phase * (HALF_UNIT - phase) <= 230400000000) by (nonlinear_arith)
                requires
                    0 <= phase <= HALF_UNIT,
                    HALF_UNIT == 240000,
            ;
            vstd::arithmetic::div_mod::lemma_div_is_ordered(
                16 * phase * (HALF_UNIT - phase),
                230400000000,
                UNIT as int,
            );
        } else {
            let q = (phase - HALF_UNIT) as i64;
            assert(0 <= 16 * q * (HALF_UNIT - q) <= 230400000000) by (nonlinear_arith)
                requires
                    0 <= q <= HALF_UNIT,
                    HALF_UNIT == 240000,
            ;
            vstd::arithmetic::div_mod::lemma_div_is_ordered(
                16 * q * (HALF_UNIT - q),
                230400000000,
                UNIT as int,
            );
        }
    }

    fn sample(&self, phase: i64) -> (s: i64) {
        if phase < HALF_UNIT {
            sine_arch_x(phase)
        } else {
            -sine_arch_x(phase - HALF_UNIT)
        }
    }
}

/// Rising sawtooth from -1 to 1 over one cycle.
#[derive(Debug, Clone, Copy)]
pub struct Saw;

impl PhaseSampler for Saw {
    open spec fn wave(self, phase: i64) -> i64 {
        (2 * phase - UNIT) as i64
    }

    proof fn lemma_wave_bounded(self, phase: i64) {
    }

    fn sample(&self, phase: i64) -> (s: i64) {
        2 * phase - UNIT
    }
}

/// Triangle wave: up from 0 to 1 over the first quarter, down to -1 over
/// the middle half, back up to 0 over the last quarter.
#[derive(Debug, Clone, Copy)]
pub struct Triangle;

impl PhaseSampler for Triangle {
    open spec fn wave(self, phase: i64) -> i64 {
        if phase < QUARTER_UNIT {
            (4 * phase) as i64
        } else if phase < 3 * QUARTER_UNIT {
            (2 * UNIT - 4 * phase) as i64
        } else {
            (4 * phase - 4 * UNIT) as i64
        }
    }

    proof fn lemma_wave_bounded(self, phase: i64) {
    }

    fn sample(&self, phase: i64) -> (s: i64) {
        if phase < QUARTER_UNIT {
            4 * phase
        } else if phase < 3 * QUARTER_UNIT {
            2 * UNIT - 4 * phase
        } else {
            4 * phase - 4 * UNIT
        }
    }
}

/// Square wave: 1 over the first half cycle, -1 over the second.
#[derive(Debug, Clone, Copy)]
pub struct Square;

impl PhaseSampler for Square {
    open spec fn wave(self, phase: i64) -> i64 {
        if phase < HALF_UNIT {
            UNIT
        } else {
            (-UNIT) as i64
        }
    }

    proof fn lemma_wave_bounded(self, phase: i64) {
    }

    fn sample(&self, phase: i64) -> (s: i64) {
        if phase < HALF_UNIT {
            UNIT
        } else {
            -UNIT
        }
    }
}

/// A phase accumulator joined to a waveform shape.
#[derive(Debug, Clone)]
pub struct Oscillator<S> {
    pub frequency: i64,
    pub phase: i64,
    pub inner: S,
}

/// The oscillator's own invariant: a representable base frequency and a
/// phase within one cycle.
pub open spec fn osc_wf<S>(o: Oscillator<S>) -> bool {
    -FREQ_MAX <= o.frequency <= FREQ_MAX && 0 <= o.phase < UNIT
}

impl<S: PhaseSampler> Oscillator<S> {
    /// Move the phase accumulator by `offset`, wrapping into one cycle.
    pub fn shift_phase(self, offset: i64) -> (r: Oscillator<S>)
        requires
            0 <= self.phase < UNIT,
            sample_wf(offset),
        ensures
            r.frequency == self.frequency,
            r.inner == self.inner,
            r.phase == (self.phase + offset) % (UNIT as int),
            0 <= r.phase < UNIT,
    {
        let phase = sample::emod_x(self.phase + offset, UNIT);
        Oscillator { frequency: self.frequency, phase, inner: self.inner }
    }
}

impl<S: PhaseSampler> PhaseSampler for Oscillator<S> {
    open spec fn wave(self, phase: i64) -> i64 {
        self.inner.wave(phase)
    }

    proof fn lemma_wave_bounded(self, phase: i64) {
        self.inner.lemma_wave_bounded(phase);
    }

    fn sample(&self, phase: i64) -> (s: i64) {
        self.inner.sample(phase)
    }
}

/// The phase after one sample: advance by the effective frequency (base
/// scaled by the control voltage) over one sample period, wrapped into one
/// cycle.
pub open spec fn phase_advance(frequency: i64, rate: u32, phase: i64, cv: i64) -> i64 {
    let incr = tdiv(volt_octave_spec(frequency, cv) as int, rate as int);
    ((phase + incr) % (UNIT as int)) as i64
}

/// One step of an oscillator: advance the phase, then read the wave.
pub open spec fn osc_step<S: PhaseSampler>(smp: S, frequency: i64, rate: u32) -> spec_fn(
    i64,
    i64,
) -> (i64, i64) {
    |p: i64, v: i64|
        (
            phase_advance(frequency, rate, p, v),
            smp.wave(phase_advance(frequency, rate, p, v)),
        )
}

/// An oscillator with a volts-per-octave control input attached.
#[derive(Debug, Clone)]
pub struct VoltageOscillator<Cv, S> {
    pub v_oct: Cv,
    pub inner: Oscillator<S>,
}

impl<Cv: Operator, S: PhaseSampler> VoltageOscillator<Cv, S> {
    /// Attach a different control-voltage input.
    pub fn v_oct<I: Operator>(self, input: I) -> (r: VoltageOscillator<I, S>)
        ensures
            r.v_oct == input,
            r.inner == self.inner,
    {
        VoltageOscillator { v_oct: input, inner: self.inner }
    }

    /// Move the phase accumulator by `offset`, wrapping into one cycle.
    pub fn shift_phase(self, offset: i64) -> (r: VoltageOscillator<Cv, S>)
        requires
            0 <= self.inner.phase < UNIT,
            sample_wf(offset),
        ensures
            r.v_oct == self.v_oct,
            r.inner.frequency == self.inner.frequency,
            r.inner.inner == self.inner.inner,
            r.inner.phase == (self.inner.phase + offset) % (UNIT as int),
    {
        VoltageOscillator { v_oct: self.v_oct, inner: self.inner.shift_phase(offset) }
    }
}

impl<Cv: Operator, S: PhaseSampler> Operator for VoltageOscillator<Cv, S> {
    type Model = (Cv::Model, i64, i64, S);

    open spec fn model(self) -> Self::Model {
        (self.v_oct.model(), self.inner.frequency, self.inner.phase, self.inner.inner)
    }

    open spec fn m_wf(m: Self::Model) -> bool {
        Cv::m_wf(m.0) && -FREQ_MAX <= m.1 <= FREQ_MAX && 0 <= m.2 < UNIT
    }

    open spec fn m_out(m: Self::Model, ctx: SynthContext) -> Seq<i64> {
        run_out(osc_step(m.3, m.1, ctx.sample_rate), m.2, Cv::m_out(m.0, ctx))
    }

    open spec fn m_next(m: Self::Model, ctx: SynthContext) -> Self::Model {
        (
            Cv::m_next(m.0, ctx),
            m.1,
            run_state(osc_step(m.3, m.1, ctx.sample_rate), m.2, Cv::m_out(m.0, ctx)),
            m.3,
        )
    }

    fn render(&mut self, ctx: &SynthContext) -> (b: Block) {
        let cvb = self.v_oct.render(ctx);
        let f = self.inner.frequency;
        let rate = ctx.sample_rate();
        let ghost step = osc_step(self.inner.inner, f, rate);
        let ghost ins = cvb@;
        let ghost p0 = self.inner.phase;
        let mut ph = self.inner.phase;
        let mut samples: Vec<i64> = Vec::new();
        let mut i: usize = 0;
        while i < BLOCK_SIZE
            invariant
                i <= BLOCK_SIZE,
                cvb@ == ins,
                ins.len() == BLOCK_SIZE,
                seq_wf(ins),
                -FREQ_MAX <= f <= FREQ_MAX,
                MIN_SAMPLE_RATE <= rate <= MAX_SAMPLE_RATE,
                step == osc_step(self.inner.inner, f, rate),
                0 <= ph < UNIT,
                ph == run_state(step, p0, ins.take(i as int)),
                samples@ == run_out(step, p0, ins.take(i as int)),
                samples@.len() == i,
                seq_wf(samples@),
            decreases BLOCK_SIZE - i,
        {
            let v = cvb.get(i);
            let vo = crate::volt_octave(f, v);
            let incr = sample::div_pos(vo, rate as i64);
            let ph2 = sample::emod_x(ph + incr, UNIT);
            let s = self.inner.inner.sample(ph2);
            proof {
                assert(ins.take(i + 1).drop_last() =~= ins.take(i as int));
                assert(ins.take(i + 1).last() == ins[i as int]);
                assert(ph2 == phase_advance(f, rate, ph, v));
                assert(step(ph, v) == (ph2, s));
            }
            samples.push(s);
            ph = ph2;
            i += 1;
        }
        proof {
            assert(ins.take(BLOCK_SIZE as int) =~= ins);
        }
        self.inner.phase = ph;
        Block::from_samples(samples)
    }
}

impl Sine {
    /// A sine oscillator at `frequency` fixed-point Hz, with no control
    /// voltage attached and the phase at zero.
    pub fn oscillator(frequency: i64) -> (r: VoltageOscillator<Silence, Sine>)
        requires
            -FREQ_MAX <= frequency <= FREQ_MAX,
        ensures
            r.v_oct == Silence,
            r.inner == (Oscillator { frequency, phase: 0i64, inner: Sine }),
            VoltageOscillator::<Silence, Sine>::m_wf(r.model()),
    {
        VoltageOscillator { v_oct: Silence, inner: Oscillator { frequency, phase: 0, inner: Sine } }
    }
}

impl Saw {
    /// A sawtooth oscillator at `frequency` fixed-point Hz.
    pub fn oscillator(frequency: i64) -> (r: VoltageOscillator<Silence, Saw>)
        requires
            -FREQ_MAX <= frequency <= FREQ_MAX,
        ensures
            r.v_oct == Silence,
            r.inner == (Oscillator { frequency, phase: 0i64, inner: Saw }),
            VoltageOscillator::<Silence, Saw>::m_wf(r.model()),
    {
        VoltageOscillator { v_oct: Silence, inner: Oscillator { frequency, phase: 0, inner: Saw } }
    }
}

impl Triangle {
    /// A triangle oscillator at `frequency` fixed-point Hz.
    pub fn oscillator(frequency: i64) -> (r: VoltageOscillator<Silence, Triangle>)
        requires
            -FREQ_MAX <= frequency <= FREQ_MAX,
        ensures
            r.v_oct == Silence,
            r.inner == (Oscillator { frequency, phase: 0i64, inner: Triangle }),
            VoltageOscillator::<Silence, Triangle>::m_wf(r.model()),
    {
        VoltageOscillator {
            v_oct: Silence,
            inner: Oscillator { frequency, phase: 0, inner: Triangle },
        }
    }
}

impl Square {
    /// A square oscillator at `frequency` fixed-point Hz.
    pub fn oscillator(frequency: i64) -> (r: VoltageOscillator<Silence, Square>)
        requires
            -FREQ_MAX <= frequency <= FREQ_MAX,
        ensures
            r.v_oct == Silence,
            r.inner == (Oscillator { frequency, phase: 0i64, inner: Square }),
            VoltageOscillator::<Silence, Square>::m_wf(r.model()),
    {
        VoltageOscillator {
            v_oct: Silence,
            inner: Oscillator { frequency, phase: 0, inner: Square },
        }
    }
}

/// The xorshift state a zero seed falls back to.
pub const NOISE_SEED: u64 = 0x9E3779B97F4A7C15;

/// One xorshift of the noise generator's state.
pub open spec fn noise_next(s: u64) -> u64 {
    let a = s ^ (s << 13);
    let b = a ^ (a >> 7);
    b ^ (b << 17)
}

/// The sample a noise state stands for: uniform over `[-UNIT, UNIT]`.
pub open spec fn noise_sample(s: u64) -> i64 {
    ((s % 960001) as i64 - UNIT) as i64
}

/// One step of the noise source: advance the state, read a sample off it.
pub open spec fn noise_step() -> spec_fn(u64, ()) -> (u64, i64) {
    |s: u64, t: ()| (noise_next(s), noise_sample(noise_next(s)))
}

/// A seedable uniform noise source over `[-UNIT, UNIT]`, driven by a
/// 64-bit xorshift generator.
#[derive(Debug, Clone)]
pub struct WhiteNoise {
    pub state: u64,
}

impl WhiteNoise {
    /// A noise source seeded with `seed`; a zero seed (which would freeze
    /// the generator) falls back to a fixed nonzero state.
    pub fn new(seed: u64) -> (r: WhiteNoise)
        ensures
            r.state == (if seed == 0 {
                NOISE_SEED
            } else {
                seed
            }),
    {
        WhiteNoise { state: if seed == 0 {
            NOISE_SEED
        } else {
            seed
        } }
    }
}

impl Operator for WhiteNoise {
    type Model = u64;

    open spec fn model(self) -> Self::Model {
        self.state
    }

    open spec fn m_wf(m: Self::Model) -> bool {
        true
    }

    open spec fn m_out(m: Self::Model, ctx: SynthContext) -> Seq<i64> {
        run_out(noise_step(), m, ticks(BLOCK_SIZE as nat))
    }

    open spec fn m_next(m: Self::Model, ctx: SynthContext) -> Self::Model {
        run_state(noise_step(), m, ticks(BLOCK_SIZE as nat))
    }

    fn render(&mut self, ctx: &SynthContext) -> (b: Block) {
        let ghost step = noise_step();
        let ghost ins = ticks(BLOCK_SIZE as nat);
        let ghost s0 = self.state;
        let mut st = self.state;
        let mut samples: Vec<i64> = Vec::new();
        let mut i: usize = 0;
        while i < BLOCK_SIZE
            invariant
                i <= BLOCK_SIZE,
                step == noise_step(),
                ins == ticks(BLOCK_SIZE as nat),
                st == run_state(step, s0, ins.take(i as int)),
                samples@ == run_out(step, s0, ins.take(i as int)),
                samples@.len() == i,
                seq_wf(samples@),
            decreases BLOCK_SIZE - i,
        {
            let a = st ^ (st << 13u64);
            let b2 = a ^ (a >> 7u64);
            let st2 = b2 ^ (b2 << 17u64);
            let v = ((st2 % 960001u64) as i64) - UNIT;
            proof {
                assert(ins.take(i + 1).drop_last() =~= ins.take(i as int));
                assert(ins.take(i + 1).last() == ());
                assert(st2 == noise_next(st));
                assert(step(st, ()) == (st2, v));
            }
            samples.push(v);
            st = st2;
            i += 1;
        }
        proof {
            assert(ins.take(BLOCK_SIZE as int) =~= ins);
        }
        self.state = st;
        Block::from_samples(samples)
    }
}

/// No control voltage leaves the base frequency untouched.
pub proof fn lemma_volt_octave_identity(f: i64)
    requires
        -FREQ_MAX <= f <= FREQ_MAX,
    ensures
        volt_octave_spec(f, 0) == f,
{
    vstd::arithmetic::power2::lemma2_to64();
    assert(0int / (UNIT as int) == 0);
    assert(0int % (UNIT as int) == 0);
    assert(f * (UNIT + 0) == f * UNIT);
    assert(f * UNIT == UNIT * f) by (nonlinear_arith);
    vstd::arithmetic::div_mod::lemma_div_multiples_vanish(f as int, UNIT as int);
    vstd::arithmetic::div_mod::lemma_div_multiples_vanish(-(f as int), UNIT as int);
    assert(UNIT * -(f as int) == -(UNIT * f)) by (nonlinear_arith);
    assert(tdiv(f * UNIT, UNIT as int) == f);
    let base = tdiv(f * (UNIT + 0), UNIT as int);
    assert(base * pow2(0) == base) by (nonlinear_arith)
        requires
            pow2(0) == 1,
    ;
}

/// One whole unit of control voltage doubles the effective frequency
/// (up to frequency saturation), for nonnegative voltages below the
/// octave cap: the defining law of the volts-per-octave convention.
pub proof fn lemma_volt_octave_doubles(f: i64, cv: i64)
    requires
        -FREQ_MAX <= f <= FREQ_MAX,
        0 <= cv,
        cv + UNIT <= SAMPLE_MAX,
        cv as int / (UNIT as int) + 1 <= OCTAVE_CAP,
    ensures
        volt_octave_spec(f, (cv + UNIT) as i64) == freq_sat(2 * volt_octave_spec(f, cv)),
{
    let o = cv as int / (UNIT as int);
    let r = cv as int % (UNIT as int);
    vstd::arithmetic::div_mod::lemma_fundamental_div_mod(cv as int, UNIT as int);
    assert((o + 1) * UNIT + r == cv + UNIT) by (nonlinear_arith)
        requires
            o * UNIT + r == cv - 0,
    ;
    vstd::arithmetic::div_mod::lemma_fundamental_div_mod_converse(
        cv + UNIT,
        UNIT as int,
        o + 1,
        r,
    );
    let base = tdiv(f * (UNIT + r), UNIT as int);
    let x = base * pow2(o as nat);
    vstd::arithmetic::power2::lemma_pow2_unfold((o + 1) as nat);
    assert(base * pow2((o + 1) as nat) == 2 * x) by (nonlinear_arith)
        requires
            pow2((o + 1) as nat) == 2 * pow2(o as nat),
            x == base * pow2(o as nat),
    ;
    assert(freq_sat(2 * freq_sat(x)) == freq_sat(2 * x));
}

use crate::SAMPLE_MAX;

/// Every sample an oscillator's phase accumulator reaches stays within
/// one cycle.
pub proof fn lemma_osc_phase_range<S: PhaseSampler>(
    smp: S,
    f: i64,
    rate: u32,
    p0: i64,
    cvs: Seq<i64>,
)
    requires
        0 <= p0 < UNIT,
    ensures
        0 <= run_state(osc_step(smp, f, rate), p0, cvs) < UNIT,
    decreases cvs.len(),
{
    if cvs.len() > 0 {
        lemma_osc_phase_range(smp, f, rate, p0, cvs.drop_last());
        let prev = run_state(osc_step(smp, f, rate), p0, cvs.drop_last());
        let incr = tdiv(volt_octave_spec(f, cvs.last()) as int, rate as int);
        vstd::arithmetic::div_mod::lemma_mod_bound(prev + incr, UNIT as int);
    }
}

/// Amplitude bound for the whole oscillator family: whatever the base
/// frequency and control voltage, every rendered sample lies within
/// `[-UNIT, UNIT]` — one unit of amplitude.
pub proof fn lemma_oscillator_bounded<S: PhaseSampler>(
    smp: S,
    f: i64,
    rate: u32,
    p0: i64,
    cvs: Seq<i64>,
)
    requires
        0 <= p0 < UNIT,
    ensures
        forall|i: int|
            0 <= i < cvs.len() ==> -UNIT <= #[trigger] run_out(osc_step(smp, f, rate), p0, cvs)[i]
                <= UNIT,
    decreases cvs.len(),
{
    crate::runner::lemma_run_out_len(osc_step(smp, f, rate), p0, cvs);
    if cvs.len() > 0 {
        lemma_oscillator_bounded(smp, f, rate, p0, cvs.drop_last());
        crate::runner::lemma_run_out_len(osc_step(smp, f, rate), p0, cvs.drop_last());
        lemma_osc_phase_range(smp, f, rate, p0, cvs.drop_last());
        let prev = run_state(osc_step(smp, f, rate), p0, cvs.drop_last());
        let ph2 = phase_advance(f, rate, prev, cvs.last());
        let incr = tdiv(volt_octave_spec(f, cvs.last()) as int, rate as int);
        vstd::arithmetic::div_mod::lemma_mod_bound(prev + incr, UNIT as int);
        smp.lemma_wave_bounded(ph2);
        assert(forall|i: int|
            0 <= i < cvs.len() - 1 ==> #[trigger] run_out(osc_step(smp, f, rate), p0, cvs)[i]
                == run_out(osc_step(smp, f, rate), p0, cvs.drop_last())[i]);
    }
}

/// Phase continuity: with a constant base frequency and no control
/// voltage, the phase after `n` samples is the starting phase plus `n`
/// per-sample increments, wrapped — the fixed-point form of
/// `(f * n / rate) mod 1`.
pub proof fn lemma_phase_continuity<S: PhaseSampler>(
    smp: S,
    f: i64,
    rate: u32,
    p0: i64,
    cvs: Seq<i64>,
)
    requires
        0 <= p0 < UNIT,
        -FREQ_MAX <= f <= FREQ_MAX,
        MIN_SAMPLE_RATE <= rate,
        forall|i: int| 0 <= i < cvs.len() ==> cvs[i] == 0i64,
    ensures
        run_state(osc_step(smp, f, rate), p0, cvs) == (p0 + cvs.len() * tdiv(
            f as int,
            rate as int,
        )) % (UNIT as int),
    decreases cvs.len(),
{
    let incr = tdiv(f as int, rate as int);
    if cvs.len() == 0 {
        vstd::arithmetic::div_mod::lemma_small_mod(p0 as nat, UNIT as nat);
        assert(p0 + 0 * incr == p0);
    } else {
        lemma_phase_continuity(smp, f, rate, p0, cvs.drop_last());
        let n = cvs.len() - 1;
        let prev = run_state(osc_step(smp, f, rate), p0, cvs.drop_last());
        assert(cvs.last() == 0i64);
        lemma_volt_octave_identity(f);
        assert(prev == (p0 + n * incr) % (UNIT as int));
        vstd::arithmetic::div_mod::lemma_add_mod_noop_right(
            incr,
            p0 + n * incr,
            UNIT as int,
        );
        assert(n * incr + incr == (n + 1) * incr) by (nonlinear_arith);
        assert(cvs.len() * incr == (n + 1) * incr);
    }
}

/// The triangle wave is continuous: samples at adjacent phases differ by
/// at most four ulps, across segment boundaries and across the wrap from
/// the end of a cycle back to its start.
pub proof fn lemma_triangle_continuous(p: i64)
    requires
        0 <= p < UNIT - 1,
    ensures
        -4 <= (Triangle).wave((p + 1) as i64) - (Triangle).wave(p) <= 4,
        -4 <= (Triangle).wave(0) - (Triangle).wave((UNIT - 1) as i64) <= 4,
{
}

/// Clock periodicity: starting from a fresh counter, the pulses of a
/// clock with sample interval `interval` land exactly at the positive
/// multiples of the interval — so consecutive pulses are spaced exactly
/// `interval` samples apart.
pub proof fn lemma_clock_periodicity(interval: u64, n: nat)
    requires
        1 <= interval,
    ensures
        run_out(clock_step(interval), 0u64, ticks(n)).len() == n,
        forall|t: int|
            0 <= t < n ==> #[trigger] run_out(clock_step(interval), 0u64, ticks(n))[t] == (
            if t % (interval as int) == 0 && t >= interval {
                UNIT
            } else {
                0i64
            }),
        run_state(clock_step(interval), 0u64, ticks(n)) as int == (if n == 0 {
            0int
        } else {
            ((n - 1) % (interval as int)) + 1
        }),
    decreases n,
{
    let step = clock_step(interval);
    let iv = interval as int;
    crate::runner::lemma_run_out_len(step, 0u64, ticks(n));
    if n > 0 {
        lemma_clock_periodicity(interval, (n - 1) as nat);
        crate::runner::lemma_run_out_len(step, 0u64, ticks((n - 1) as nat));
        assert(ticks(n).drop_last() =~= ticks((n - 1) as nat));
        let c_prev = run_state(step, 0u64, ticks((n - 1) as nat));
        let t = n - 1;
        if n == 1 {
            vstd::arithmetic::div_mod::lemma_small_mod(0, iv as nat);
        } else {
            let r = (n - 2) % iv;
            let q = (n - 2) / iv;
            vstd::arithmetic::div_mod::lemma_mod_bound(n - 2, iv);
            vstd::arithmetic::div_mod::lemma_fundamental_div_mod(n - 2, iv);
            vstd::arithmetic::div_mod::lemma_div_pos_is_pos(n - 2, iv);
            assert(c_prev as int == r + 1);
            if r == iv - 1 {
                assert(t == iv * (q + 1)) by (nonlinear_arith)
                    requires
                        t == iv * q + r + 1,
                        r == iv - 1,
                ;
                vstd::arithmetic::div_mod::lemma_mod_multiples_vanish(q + 1, 0, iv);
                vstd::arithmetic::div_mod::lemma_small_mod(0, iv as nat);
                assert(t >= iv) by (nonlinear_arith)
                    requires
                        t == iv * (q + 1),
                        q >= 0,
                        iv >= 1,
                ;
                assert(t % iv == 0);
            } else {
                vstd::arithmetic::div_mod::lemma_mod_multiples_vanish(q, r + 1, iv);
                vstd::arithmetic::div_mod::lemma_small_mod((r + 1) as nat, iv as nat);
                assert(t % iv == r + 1);
            }
        }
        assert(forall|u: int|
            0 <= u < n - 1 ==> #[trigger] run_out(step, 0u64, ticks(n))[u] == run_out(
                step,
                0u64,
                ticks((n - 1) as nat),
            )[u]);
    }
}

/// How many pulses a signal carries.
pub open spec fn pulse_count(s: Seq<i64>) -> int
    decreases s.len(),
{
    if s.len() == 0 {
        0
    } else {
        pulse_count(s.drop_last()) + if s.last() == UNIT {
            1int
        } else {
            0int
        }
    }
}

/// Over the first `n` samples from a fresh counter, the clock emits
/// exactly `(n - 1) / interval` pulses (floor division) — one per full
/// interval elapsed, none at sample zero.
pub proof fn lemma_clock_pulse_count(interval: u64, n: nat)
    requires
        1 <= interval,
    ensures
        pulse_count(run_out(clock_step(interval), 0u64, ticks(n))) == (if n == 0 {
            0int
        } else {
            (n - 1) / (interval as int)
        }),
    decreases n,
{
    let step = clock_step(interval);
    let iv = interval as int;
    if n > 0 {
        lemma_clock_pulse_count(interval, (n - 1) as nat);
        lemma_clock_periodicity(interval, n);
        crate::runner::lemma_run_out_len(step, 0u64, ticks(n));
        let outs = run_out(step, 0u64, ticks(n));
        assert(ticks(n).drop_last() =~= ticks((n - 1) as nat));
        assert(outs.drop_last() == run_out(step, 0u64, ticks((n - 1) as nat)));
        let t = n - 1;
        assert(outs.last() == outs[t]);
        if n == 1 {
            assert(outs[t] == 0i64);
            assert(0int / iv == 0) by {
                vstd::arithmetic::div_mod::lemma_div_of0(iv);
            }
        } else {
            let r = (n - 2) % iv;
            let q = (n - 2) / iv;
            vstd::arithmetic::div_mod::lemma_mod_bound(n - 2, iv);
            vstd::arithmetic::div_mod::lemma_fundamental_div_mod(n - 2, iv);
            vstd::arithmetic::div_mod::lemma_div_pos_is_pos(n - 2, iv);
            if r == iv - 1 {
                assert(t == iv * (q + 1) + 0) by (nonlinear_arith)
                    requires
                        t == iv * q + r + 1,
                        r == iv - 1,
                ;
                vstd::arithmetic::div_mod::lemma_fundamental_div_mod_converse(t, iv, q + 1, 0);
                assert(t % iv == 0 && t / iv == q + 1);
                assert(t >= iv) by (nonlinear_arith)
                    requires
                        t == iv * (q + 1),
                        q >= 0,
                        iv >= 1,
                ;
                assert(outs[t] == UNIT);
            } else {
                vstd::arithmetic::div_mod::lemma_fundamental_div_mod_converse(t, iv, q, r + 1);
                assert(t % iv == r + 1 && t / iv == q);
                assert(outs[t] == 0i64);
            }
        }
    }
}

} // verus!
