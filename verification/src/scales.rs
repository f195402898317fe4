//! Scale quantization of control voltage: each sample is snapped to the
//! nearest scale interval within its octave.  One octave is `UNIT`, a
//! semitone `UNIT / 12`; ties go to the lower interval.

use vstd::prelude::*;

use crate::Block;
use crate::Operator;
use crate::SynthContext;
use crate::BLOCK_SIZE;
use crate::SAMPLE_MAX;
use crate::UNIT;
use crate::sample;
use crate::sample::sample_wf;
use crate::sample::sat;
use crate::sample::seq_wf;

verus! {

/// One semitone of control voltage.
pub const SEMITONE: i64 = 40000;

/// Which scale the quantizer snaps to.
#[derive(Default, Debug, Clone, Copy, PartialEq, Eq, Structural)]
pub enum QuantizeMode {
    #[default]
    All,
    Major,
    Minor,
}

/// Semitone offsets of the major scale, indexed by degree.
pub open spec fn major_semi(k: int) -> int {
    if k <= 0 {
        0
    } else if k == 1 {
        2
    } else if k == 2 {
        4
    } else if k == 3 {
        5
    } else if k == 4 {
        7
    } else if k == 5 {
        9
    } else if k == 6 {
        11
    } else {
        12
    }
}

/// Semitone offsets of the natural minor scale, indexed by degree.
pub open spec fn minor_semi(k: int) -> int {
    if k <= 0 {
        0
    } else if k == 1 {
        2
    } else if k == 2 {
        3
    } else if k == 3 {
        5
    } else if k == 4 {
        7
    } else if k == 5 {
        8
    } else if k == 6 {
        10
    } else {
        12
    }
}

/// The candidate intervals of a scale, in control-voltage units,
/// ascending from 0 to a full octave.
pub open spec fn intervals(mode: QuantizeMode) -> Seq<i64> {
    match mode {
        QuantizeMode::All => Seq::new(13, |k: int| (k * SEMITONE) as i64),
        QuantizeMode::Major => Seq::new(8, |k: int| (major_semi(k) * SEMITONE) as i64),
        QuantizeMode::Minor => Seq::new(8, |k: int| (minor_semi(k) * SEMITONE) as i64),
    }
}

/// Distance between two sample values.
pub open spec fn dist(a: i64, b: i64) -> int {
    if a >= b {
        a - b
    } else {
        b - a
    }
}

/// Scan the remaining candidates, keeping the earliest one strictly
/// closest to `frac`.
pub open spec fn scan_best(cands: Seq<i64>, best: i64, frac: i64) -> i64
    decreases cands.len(),
{
    if cands.len() == 0 {
        best
    } else {
        scan_best(
            cands.drop_first(),
            if dist(cands[0], frac) < dist(best, frac) {
                cands[0]
            } else {
                best
            },
            frac,
        )
    }
}

/// The scale interval nearest to a fractional voltage, ties to the
/// earlier (lower) interval.
pub open spec fn best_offset(mode: QuantizeMode, frac: i64) -> i64 {
    scan_best(intervals(mode).drop_first(), intervals(mode)[0], frac)
}

/// One quantized sample: the octave part of `x` plus the scale interval
/// nearest to its fractional part, clamped into the sample range.
pub open spec fn quant_s(mode: QuantizeMode, x: i64) -> i64 {
    let frac = (x as int % UNIT as int) as i64;
    sat(x - frac + best_offset(mode, frac))
}

/// The pointwise image of a sequence under quantization.
pub open spec fn seq_quant(mode: QuantizeMode, s: Seq<i64>) -> Seq<i64> {
    Seq::new(s.len(), |i: int| quant_s(mode, s[i]))
}

/// The scan result is one of the candidates considered and no candidate
/// considered is strictly closer to `frac`.
proof fn lemma_scan_best(cands: Seq<i64>, best: i64, frac: i64)
    ensures
        scan_best(cands, best, frac) == best || cands.contains(scan_best(cands, best, frac)),
        dist(scan_best(cands, best, frac), frac) <= dist(best, frac),
        forall|j: int|
            0 <= j < cands.len() ==> dist(scan_best(cands, best, frac), frac) <= dist(
                #[trigger] cands[j],
                frac,
            ),
    decreases cands.len(),
{
    if cands.len() > 0 {
        assert(forall|j: int|
            0 <= j < cands.drop_first().len() ==> #[trigger] cands.drop_first()[j] == cands[j
                + 1]);
        let best1 = if dist(cands[0], frac) < dist(best, frac) {
            cands[0]
        } else {
            best
        };
        lemma_scan_best(cands.drop_first(), best1, frac);
        let r = scan_best(cands, best, frac);
        assert(r == scan_best(cands.drop_first(), best1, frac));
        if r == best1 && best1 == cands[0] {
            assert(cands.contains(r)) by {
                assert(cands[0] == r);
            }
        } else if r != best1 {
            assert(cands.drop_first().contains(r));
            let w = choose|w: int|
                0 <= w < cands.drop_first().len() && cands.drop_first()[w] == r;
            assert(cands[w + 1] == r);
            assert(cands.contains(r));
        }
        assert forall|j: int|
            0 <= j < cands.len() implies dist(r, frac) <= dist(#[trigger] cands[j], frac) by {
            if j >= 1 {
                assert(cands.drop_first()[j - 1] == cands[j]);
                assert(dist(r, frac) <= dist(cands.drop_first()[j - 1], frac));
            }
        }
    }
}

/// The chosen interval is a real interval of the scale, lies within one
/// octave, and no interval of the scale is strictly closer.
pub proof fn lemma_best_offset(mode: QuantizeMode, frac: i64)
    ensures
        intervals(mode).contains(best_offset(mode, frac)),
        0 <= best_offset(mode, frac) <= UNIT,
        forall|j: int|
            0 <= j < intervals(mode).len() ==> dist(best_offset(mode, frac), frac) <= dist(
                #[trigger] intervals(mode)[j],
                frac,
            ),
{
    let ints = intervals(mode);
    lemma_scan_best(ints.drop_first(), ints[0], frac);
    let r = best_offset(mode, frac);
    if r == ints[0] {
        assert(ints.contains(r)) by {
            assert(ints[0] == r);
        }
    } else {
        let w = choose|w: int| 0 <= w < ints.drop_first().len() && ints.drop_first()[w] == r;
        assert(ints[w + 1] == r);
        assert(ints.contains(r));
    }
    let k = choose|k: int| 0 <= k < ints.len() && ints[k] == r;
    assert(0 <= r <= UNIT);
    assert forall|j: int|
        0 <= j < ints.len() implies dist(r, frac) <= dist(#[trigger] ints[j], frac) by {
        if j >= 1 {
            assert(ints.drop_first()[j - 1] == ints[j]);
            assert(dist(r, frac) <= dist(ints.drop_first()[j - 1], frac));
        }
    }
}

/// If a fractional voltage is itself a scale interval, the quantizer
/// leaves it alone.
proof fn lemma_best_offset_fixed(mode: QuantizeMode, frac: i64)
    requires
        intervals(mode).contains(frac),
    ensures
        best_offset(mode, frac) == frac,
{
    lemma_best_offset(mode, frac);
    let j = choose|j: int| 0 <= j < intervals(mode).len() && intervals(mode)[j] == frac;
    assert(dist(intervals(mode)[j], frac) == 0);
}

/// Quantizing is idempotent: a second pass changes nothing.  (Inputs
/// within one octave of the saturation bound, where the clamp cannot
/// disturb the snapped value.)
pub proof fn lemma_quantize_idempotent(mode: QuantizeMode, x: i64)
    requires
        -(SAMPLE_MAX - UNIT) <= x <= SAMPLE_MAX - UNIT,
    ensures
        quant_s(mode, quant_s(mode, x)) == quant_s(mode, x),
{
    let frac = (x as int % UNIT as int) as i64;
    vstd::arithmetic::div_mod::lemma_fundamental_div_mod(x as int, UNIT as int);
    vstd::arithmetic::div_mod::lemma_mod_bound(x as int, UNIT as int);
    lemma_best_offset(mode, frac);
    let b = best_offset(mode, frac);
    let q = x as int - frac + b;
    assert(quant_s(mode, x) == q as i64);
    let oct = x as int / UNIT as int;
    assert(q == UNIT * oct + b);
    if b < UNIT {
        vstd::arithmetic::div_mod::lemma_mod_multiples_vanish(oct, b as int, UNIT as int);
        vstd::arithmetic::div_mod::lemma_small_mod(b as nat, UNIT as nat);
        assert(q % (UNIT as int) == b);
        lemma_best_offset_fixed(mode, b);
    } else {
        assert(q == UNIT * (oct + 1) + 0) by (nonlinear_arith)
            requires
                q == UNIT * oct + b,
                b == UNIT,
        ;
        vstd::arithmetic::div_mod::lemma_mod_multiples_vanish(oct + 1, 0, UNIT as int);
        vstd::arithmetic::div_mod::lemma_small_mod(0, UNIT as nat);
        assert(q % (UNIT as int) == 0);
        assert(intervals(mode)[0] == 0);
        assert(intervals(mode).contains(0i64)) by {
            assert(intervals(mode)[0] == 0i64);
        }
        lemma_best_offset_fixed(mode, 0);
    }
}

/// The quantizer snaps to the scale: the output's fractional part,
/// wrapped positive, is one of the scale's intervals.  (Inputs within
/// one octave of the saturation bound.)
pub proof fn lemma_quantize_on_scale(mode: QuantizeMode, x: i64)
    requires
        -(SAMPLE_MAX - UNIT) <= x <= SAMPLE_MAX - UNIT,
    ensures
        intervals(mode).contains(((quant_s(mode, x) as int % UNIT as int)) as i64),
{
    let frac = (x as int % UNIT as int) as i64;
    vstd::arithmetic::div_mod::lemma_fundamental_div_mod(x as int, UNIT as int);
    vstd::arithmetic::div_mod::lemma_mod_bound(x as int, UNIT as int);
    lemma_best_offset(mode, frac);
    let b = best_offset(mode, frac);
    let q = x as int - frac + b;
    assert(quant_s(mode, x) == q as i64);
    let oct = x as int / UNIT as int;
    assert(q == UNIT * oct + b);
    if b < UNIT {
        vstd::arithmetic::div_mod::lemma_mod_multiples_vanish(oct, b as int, UNIT as int);
        vstd::arithmetic::div_mod::lemma_small_mod(b as nat, UNIT as nat);
        assert(q % (UNIT as int) == b);
    } else {
        assert(q == UNIT * (oct + 1) + 0) by (nonlinear_arith)
            requires
                q == UNIT * oct + b,
                b == UNIT,
        ;
        vstd::arithmetic::div_mod::lemma_mod_multiples_vanish(oct + 1, 0, UNIT as int);
        vstd::arithmetic::div_mod::lemma_small_mod(0, UNIT as nat);
        assert(q % (UNIT as int) == 0);
        assert(intervals(mode).contains(0i64)) by {
            assert(intervals(mode)[0] == 0i64);
        }
    }
}

/// The `k`-th interval of a scale, executable.
fn interval_at(mode: QuantizeMode, k: usize) -> (c: i64)
    requires
        k < intervals(mode).len(),
    ensures
        c == intervals(mode)[k as int],
        0 <= c <= UNIT,
{
    match mode {
        QuantizeMode::All => (k as i64) * SEMITONE,
        QuantizeMode::Major => {
            let s: i64 = match k {
                0 => 0,
                1 => 2,
                2 => 4,
                3 => 5,
                4 => 7,
                5 => 9,
                6 => 11,
                _ => 12,
            };
            s * SEMITONE
        },
        QuantizeMode::Minor => {
            let s: i64 = match k {
                0 => 0,
                1 => 2,
                2 => 3,
                3 => 5,
                4 => 7,
                5 => 8,
                6 => 10,
                _ => 12,
            };
            s * SEMITONE
        },
    }
}

/// Quantize one sample.
fn quantize_sample(mode: QuantizeMode, x: i64) -> (r: i64)
    requires
        sample_wf(x),
    ensures
        r == quant_s(mode, x),
        sample_wf(r),
{
    let fr = sample::emod_x(x, UNIT);
    let base = x - fr;
    let count: usize = match mode {
        QuantizeMode::All => 13,
        QuantizeMode::Major => 8,
        QuantizeMode::Minor => 8,
    };
    let ghost cands = intervals(mode);
    let mut best = interval_at(mode, 0);
    let mut k: usize = 1;
    while k < count
        invariant
            1 <= k <= count,
            count == intervals(mode).len(),
            cands == intervals(mode),
            0 <= best <= UNIT,
            sample_wf(x),
            0 <= fr < UNIT,
            scan_best(cands.skip(k as int), best, fr) == best_offset(mode, fr),
        decreases count - k,
    {
        let c = interval_at(mode, k);
        let dc = if c >= fr {
            c - fr
        } else {
            fr - c
        };
        let db = if best >= fr {
            best - fr
        } else {
            fr - best
        };
        proof {
            assert(cands.skip(k as int).drop_first() =~= cands.skip(k + 1));
            assert(cands.skip(k as int)[0] == cands[k as int]);
        }
        if dc < db {
            best = c;
        }
        k += 1;
    }
    proof {
        assert(cands.skip(count as int) =~= Seq::<i64>::empty());
        assert(cands.skip(1) =~= cands.drop_first());
    }
    sample::sat_x(base + best)
}

/// Snaps its input's control voltage to the chosen scale, per sample.
#[derive(Debug, Clone)]
pub struct Quantizer<I> {
    pub input: I,
    pub mode: QuantizeMode,
}

impl<I: Operator> Operator for Quantizer<I> {
    type Model = (I::Model, QuantizeMode);

    open spec fn model(self) -> Self::Model {
        (self.input.model(), self.mode)
    }

    open spec fn m_wf(m: Self::Model) -> bool {
        I::m_wf(m.0)
    }

    open spec fn m_out(m: Self::Model, ctx: SynthContext) -> Seq<i64> {
        seq_quant(m.1, I::m_out(m.0, ctx))
    }

    open spec fn m_next(m: Self::Model, ctx: SynthContext) -> Self::Model {
        (I::m_next(m.0, ctx), m.1)
    }

    fn render(&mut self, ctx: &SynthContext) -> (b: Block) {
        let inb = self.input.render(ctx);
        let mode = self.mode;
        let mut samples: Vec<i64> = Vec::new();
        let mut i: usize = 0;
        while i < BLOCK_SIZE
            invariant
                i <= BLOCK_SIZE,
                inb@.len() == BLOCK_SIZE,
                seq_wf(inb@),
                mode == self.mode,
                samples@.len() == i,
                forall|j: int|
                    0 <= j < i ==> samples@[j] == quant_s(mode, inb@[j]) && sample_wf(
                        #[trigger] samples@[j],
                    ),
            decreases BLOCK_SIZE - i,
        {
            let x = inb.get(i);
            let v = quantize_sample(mode, x);
            samples.push(v);
            i += 1;
        }
        proof {
            assert(samples@ =~= seq_quant(mode, inb@));
        }
        Block::from_samples(samples)
    }
}

} // verus!
