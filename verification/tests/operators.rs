//! Per-operator behavior: arithmetic, comparators, detection, filters,
//! delay, tap, quantizer, noise, and the volt-per-octave map.

use modsynth::delay::Delay;
use modsynth::filter::SinglePoleHpf;
use modsynth::filter::SinglePoleLpf;
use modsynth::scales::QuantizeMode;
use modsynth::volt_octave;
use modsynth::Block;
use modsynth::Clock;
use modsynth::Const;
use modsynth::Operator;
use modsynth::OperatorExt;
use modsynth::Saw;
use modsynth::Silence;
use modsynth::Sine;
use modsynth::Square;
use modsynth::SynthContext;
use modsynth::SynthError;
use modsynth::Triangle;
use modsynth::WhiteNoise;
use modsynth::BLOCK_SIZE;
use modsynth::SAMPLE_MAX;
use modsynth::UNIT;

fn ctx48() -> SynthContext {
    SynthContext::new(48000).unwrap()
}

fn assert_all(b: &Block, v: i64) {
    for i in 0..BLOCK_SIZE {
        assert_eq!(b.get(i), v, "lane {}", i);
    }
}

/// A clock whose pulse interval is exactly `n` samples at 48 kHz.
fn fast_clock(n: i64) -> Clock {
    // 60 / bpm seconds = n / 48000, so bpm = 60 * 48000 / n.
    Clock::bpm(60 * 48000 / n * UNIT)
}

#[test]
fn sample_rate_validation() {
    assert!(SynthContext::new(0).is_err());
    assert!(SynthContext::new(7999).is_err());
    assert!(SynthContext::new(8000).is_ok());
    assert!(SynthContext::new(192000).is_ok());
    assert!(SynthContext::new(192001).is_err());
    assert_eq!(
        SynthContext::new(0).unwrap_err(),
        SynthError::InvalidParameter
    );
}

#[test]
fn arithmetic_is_pointwise_and_saturating() {
    let ctx = ctx48();
    assert_all(&Const(UNIT).add(Const(2 * UNIT)).render(&ctx), 3 * UNIT);
    assert_all(&Const(UNIT).sub(Const(3 * UNIT)).render(&ctx), -2 * UNIT);
    assert_all(&Const(2 * UNIT).mul(Const(3 * UNIT)).render(&ctx), 6 * UNIT);
    assert_all(
        &Const(SAMPLE_MAX).add(Const(SAMPLE_MAX)).render(&ctx),
        SAMPLE_MAX,
    );
    assert_all(
        &Const(-SAMPLE_MAX).sub(Const(SAMPLE_MAX)).render(&ctx),
        -SAMPLE_MAX,
    );
    assert_all(&Const(-7).abs().render(&ctx), 7);
    assert_all(&Const(7).invert().render(&ctx), -7);
    assert_all(&Const(3).min(Const(5)).render(&ctx), 3);
    assert_all(&Const(3).max(Const(5)).render(&ctx), 5);
}

#[test]
fn silence_absorbs_multiplication() {
    let ctx = ctx48();
    let mut m = Saw::oscillator(440 * UNIT).mul(Silence);
    assert_all(&m.render(&ctx), 0);
    assert_all(&m.render(&ctx), 0);
}

#[test]
fn mix_at_level_zero_is_identity() {
    let ctx = ctx48();
    let mut plain = Saw::oscillator(440 * UNIT);
    let mut mixed = Saw::oscillator(440 * UNIT).mix(Sine::oscillator(100 * UNIT), Const(0));
    for _ in 0..4 {
        let a = plain.render(&ctx);
        let b = mixed.render(&ctx);
        for i in 0..BLOCK_SIZE {
            assert_eq!(a.get(i), b.get(i));
        }
    }
}

#[test]
fn comparators_emit_unit_or_zero() {
    let ctx = ctx48();
    assert_all(&Const(2).greater_than(Const(1)).render(&ctx), UNIT);
    assert_all(&Const(1).greater_than(Const(1)).render(&ctx), 0);
    assert_all(&Const(1).greater_than_or_equal_to(Const(1)).render(&ctx), UNIT);
    assert_all(&Const(1).less_than(Const(2)).render(&ctx), UNIT);
    assert_all(&Const(2).less_than(Const(2)).render(&ctx), 0);
    // Less-than-or-equal means exactly that.
    assert_all(&Const(2).less_than_or_equal_to(Const(2)).render(&ctx), UNIT);
    assert_all(&Const(3).less_than_or_equal_to(Const(2)).render(&ctx), 0);
    assert_all(&Const(2).equal_to(Const(2)).render(&ctx), UNIT);
    assert_all(&Const(2).not_equal_to(Const(2)).render(&ctx), 0);
    assert_all(&Const(2).not_equal_to(Const(3)).render(&ctx), UNIT);
}

#[test]
fn trigger_fires_once_on_a_held_high_input() {
    let ctx = ctx48();
    let mut t = Const(UNIT).trigger();
    let b = t.render(&ctx);
    assert_eq!(b.get(0), UNIT);
    for i in 1..BLOCK_SIZE {
        assert_eq!(b.get(i), 0);
    }
    let b2 = t.render(&ctx);
    assert_all(&b2, 0);
}

#[test]
fn trigger_passes_isolated_pulses_through() {
    let ctx = ctx48();
    let mut plain = fast_clock(10);
    let mut trig = fast_clock(10).trigger();
    for _ in 0..4 {
        let a = plain.render(&ctx);
        let b = trig.render(&ctx);
        for i in 0..BLOCK_SIZE {
            assert_eq!(a.get(i), b.get(i));
        }
    }
}

#[test]
fn clock_spacing_is_exactly_the_interval() {
    let ctx = ctx48();
    let mut clock = fast_clock(10);
    let b = clock.render(&ctx);
    for i in 0..BLOCK_SIZE {
        let expect = if i >= 10 && i % 10 == 0 { UNIT } else { 0 };
        assert_eq!(b.get(i), expect, "lane {}", i);
    }
}

#[test]
fn gate_holds_half_the_period_high() {
    let ctx = ctx48();
    let mut gate = modsynth::Gate::bpm(60 * 48000 / 10 * UNIT);
    let b = gate.render(&ctx);
    // Width 0.5 of a 10-sample period: high while the counter is under 5,
    // and on the fire sample itself.
    for i in 0..5 {
        assert_eq!(b.get(i), UNIT, "lane {}", i);
    }
    for i in 5..10 {
        assert_eq!(b.get(i), 0, "lane {}", i);
    }
    assert_eq!(b.get(10), UNIT);
    for i in 11..15 {
        assert_eq!(b.get(i), UNIT, "lane {}", i);
    }
    assert_eq!(b.get(15), 0);
}

#[test]
fn oscillators_stay_within_one_unit() {
    let ctx = ctx48();
    let mut sine = Sine::oscillator(441 * UNIT);
    let mut saw = Saw::oscillator(441 * UNIT);
    let mut tri = Triangle::oscillator(441 * UNIT);
    let mut sq = Square::oscillator(441 * UNIT);
    for _ in 0..16 {
        for b in [
            sine.render(&ctx),
            saw.render(&ctx),
            tri.render(&ctx),
            sq.render(&ctx),
        ] {
            for i in 0..BLOCK_SIZE {
                assert!(b.get(i) >= -UNIT && b.get(i) <= UNIT);
            }
        }
    }
}

#[test]
fn saw_phase_advances_exactly() {
    let ctx = ctx48();
    // 375 Hz at 48 kHz: the phase advances 3750 per sample, half a cycle
    // in 64 samples.
    let mut saw = Saw::oscillator(375 * UNIT);
    let b = saw.render(&ctx);
    // Lane k plays phase 3750 * (k + 1); lane 63 sits at half a cycle.
    assert_eq!(b.get(0), 2 * 3750 - UNIT);
    assert_eq!(b.get(63), 0);
    let b2 = saw.render(&ctx);
    // One full cycle after 128 samples: back to phase zero.
    assert_eq!(b2.get(63), -UNIT);
}

#[test]
fn volt_octave_map_doubles_per_unit() {
    let f = 440 * UNIT;
    assert_eq!(volt_octave(f, 0), f);
    assert_eq!(volt_octave(f, UNIT), 2 * f);
    assert_eq!(volt_octave(f, 2 * UNIT), 4 * f);
    assert_eq!(volt_octave(f, -UNIT), f / 2);
    // One semitone up is linear interpolation within the octave.
    assert_eq!(volt_octave(f, UNIT / 12), f / 12 * 13);
}

#[test]
fn lpf_settles_on_a_constant_input() {
    let ctx = ctx48();
    // From above the filter reaches the input exactly.
    let mut lpf = SinglePoleLpf::lpf(Const(-UNIT), 1000 * UNIT, 48000);
    let mut last = 0;
    for _ in 0..40 {
        let b = lpf.render(&ctx);
        last = b.get(BLOCK_SIZE - 1);
    }
    assert_eq!(last, -UNIT);
    // From below it climbs into a narrow band under the input.
    let mut lpf2 = SinglePoleLpf::lpf(Const(UNIT), 1000 * UNIT, 48000);
    let mut last2 = 0;
    for _ in 0..40 {
        let b = lpf2.render(&ctx);
        last2 = b.get(BLOCK_SIZE - 1);
    }
    assert!(last2 > UNIT - 10 && last2 <= UNIT, "settled at {}", last2);
}

#[test]
fn hpf_at_full_cutoff_blocks_dc() {
    let ctx = ctx48();
    let mut hpf = SinglePoleHpf::hpf(Const(UNIT), 24000 * UNIT, 48000);
    for _ in 0..8 {
        assert_all(&hpf.render(&ctx), 0);
    }
}

#[test]
fn hpf_attenuates_dc_partially() {
    let ctx = ctx48();
    // A single-pole high-pass below full cutoff leaves a residual DC gain
    // of (UNIT + k) / (UNIT - k); the output settles near it, not at the
    // input.
    let mut hpf = SinglePoleHpf::hpf(Const(UNIT), 100 * UNIT, 48000);
    let mut last = 0;
    for _ in 0..40 {
        let b = hpf.render(&ctx);
        last = b.get(BLOCK_SIZE - 1);
    }
    assert!(last < UNIT && last > 0, "settled at {}", last);
}

#[test]
fn delay_zero_is_identity() {
    let ctx = ctx48();
    let mut plain = fast_clock(10);
    let mut delayed = fast_clock(10).delay(0, 48000).unwrap();
    for _ in 0..3 {
        let a = plain.render(&ctx);
        let b = delayed.render(&ctx);
        for i in 0..BLOCK_SIZE {
            assert_eq!(a.get(i), b.get(i));
        }
    }
}

#[test]
fn delay_shifts_by_its_length_after_warmup() {
    let ctx = ctx48();
    let mut plain = fast_clock(10);
    // 50 fixed-point seconds-units is 5 samples at 48 kHz.
    let mut delayed = fast_clock(10).delay(50, 48000).unwrap();
    let a = plain.render(&ctx);
    let b = delayed.render(&ctx);
    for i in 0..5 {
        assert_eq!(b.get(i), 0);
    }
    for i in 5..BLOCK_SIZE {
        assert_eq!(b.get(i), a.get(i - 5), "lane {}", i);
    }
}

#[test]
fn delay_rejects_bad_parameters() {
    assert!(matches!(
        Delay::delay(Silence, -1, 48000),
        Err(SynthError::InvalidParameter)
    ));
    assert!(matches!(
        Delay::delay(Silence, 1728000001, 48000),
        Err(SynthError::InvalidParameter)
    ));
    // A representable but too-long line is rejected too (memory cap).
    assert!(Delay::delay(Silence, 1000 * UNIT, 48000).is_err());
    assert!(Delay::delay(Silence, 50, 48000).is_ok());
}

#[test]
fn tap_renders_its_inner_operator_once_per_tick() {
    let mut ctx = ctx48();
    let mut tapped = Saw::oscillator(440 * UNIT).tap();
    let mut plain = Saw::oscillator(440 * UNIT);
    // Two renders in the same tick: the same block, no extra advance.
    let t1 = tapped.render(&ctx);
    let t2 = tapped.render(&ctx);
    let p1 = plain.render(&ctx);
    for i in 0..BLOCK_SIZE {
        assert_eq!(t1.get(i), t2.get(i));
        assert_eq!(t1.get(i), p1.get(i));
    }
    // Next tick: the inner oscillator has advanced exactly one block.
    ctx.sample_count += BLOCK_SIZE as u64;
    let t3 = tapped.render(&ctx);
    let p2 = plain.render(&ctx);
    for i in 0..BLOCK_SIZE {
        assert_eq!(t3.get(i), p2.get(i));
    }
}

#[test]
fn quantizer_snaps_to_the_major_scale() {
    let ctx = ctx48();
    // 3.6 semitones snaps up to the major third (4 semitones).
    let b = Const(144000).quantize(QuantizeMode::Major).render(&ctx);
    assert_all(&b, 160000);
    // A tie (1 semitone, equidistant from 0 and 2) goes down.
    let b = Const(40000).quantize(QuantizeMode::Major).render(&ctx);
    assert_all(&b, 0);
    // Negative voltages keep their octave and snap within it.
    let b = Const(-240000).quantize(QuantizeMode::Major).render(&ctx);
    assert_all(&b, -280000);
}

#[test]
fn quantizer_is_idempotent() {
    let ctx = ctx48();
    for mode in [QuantizeMode::All, QuantizeMode::Major, QuantizeMode::Minor] {
        for x in [
            -987654, -240000, -1, 0, 1, 39999, 40000, 144000, 479999, 987654,
        ] {
            let once = Const(x).quantize(mode).render(&ctx).get(0);
            let twice = Const(once).quantize(mode).render(&ctx).get(0);
            assert_eq!(once, twice, "mode {:?} x {}", mode, x);
            // And the result always lies on the chromatic grid.
            assert_eq!(once.rem_euclid(40000), 0);
        }
    }
}

#[test]
fn noise_is_bounded_and_seed_deterministic() {
    let ctx = ctx48();
    let mut n1 = WhiteNoise::new(12345);
    let mut n2 = WhiteNoise::new(12345);
    let mut n3 = WhiteNoise::new(54321);
    let b1 = n1.render(&ctx);
    let b2 = n2.render(&ctx);
    let b3 = n3.render(&ctx);
    let mut differs = false;
    for i in 0..BLOCK_SIZE {
        assert!(b1.get(i) >= -UNIT && b1.get(i) <= UNIT);
        assert_eq!(b1.get(i), b2.get(i));
        if b1.get(i) != b3.get(i) {
            differs = true;
        }
    }
    assert!(differs);
}

#[test]
fn triangle_is_continuous_across_segments() {
    let ctx = ctx48();
    // A fast triangle sweeps all segments; adjacent samples never jump
    // more than the per-sample slope allows.
    let mut tri = Triangle::oscillator(375 * UNIT);
    let mut prev: Option<i64> = None;
    for _ in 0..8 {
        let b = tri.render(&ctx);
        for i in 0..BLOCK_SIZE {
            let v = b.get(i);
            if let Some(p) = prev {
                assert!((v - p).abs() <= 4 * 3750, "jump {} -> {}", p, v);
            }
            prev = Some(v);
        }
    }
}

#[test]
fn gate_width_is_modulatable() {
    let ctx = ctx48();
    let mut full = modsynth::Gate::bpm(60 * 48000 / 10 * UNIT).width(Const(UNIT));
    assert_all(&full.render(&ctx), UNIT);
    let mut narrow = modsynth::Gate::bpm(60 * 48000 / 10 * UNIT).width(Const(0));
    let b = narrow.render(&ctx);
    for i in 0..BLOCK_SIZE {
        let expect = if i >= 10 && i % 10 == 0 { UNIT } else { 0 };
        assert_eq!(b.get(i), expect, "lane {}", i);
    }
}

#[test]
fn noise_zero_seed_falls_back() {
    let ctx = ctx48();
    let mut n = WhiteNoise::new(0);
    assert_eq!(n.state, modsynth::sources::NOISE_SEED);
    let b = n.render(&ctx);
    let mut nonzero = false;
    for i in 0..BLOCK_SIZE {
        assert!(b.get(i) >= -UNIT && b.get(i) <= UNIT);
        if b.get(i) != 0 {
            nonzero = true;
        }
    }
    assert!(nonzero);
}

#[test]
fn shift_phase_offsets_the_cycle() {
    let ctx = ctx48();
    // A frozen saw parked half a cycle in reads zero forever.
    let mut osc = Saw::oscillator(0).shift_phase(240000);
    assert_all(&osc.render(&ctx), 0);
}

#[test]
fn v_oct_of_one_unit_doubles_the_rate() {
    let ctx = ctx48();
    // 375 Hz shifted one octave up runs at 750 Hz: 7500 phase per sample.
    let mut osc = modsynth::sources::Square::oscillator(375 * UNIT).v_oct(Const(UNIT));
    let b = osc.render(&ctx);
    assert_eq!(b.get(30), UNIT);
    assert_eq!(b.get(31), -UNIT);
}
