//! End-to-end scenarios at 48 kHz with 64-sample blocks.

use modsynth::Block;
use modsynth::Clock;
use modsynth::Const;
use modsynth::MemoryOut;
use modsynth::Operator;
use modsynth::OperatorExt;
use modsynth::Silence;
use modsynth::Sine;
use modsynth::Sink;
use modsynth::SynthContext;
use modsynth::BLOCK_SIZE;
use modsynth::UNIT;

fn ctx48() -> SynthContext {
    SynthContext::new(48000).unwrap()
}

fn assert_all(b: &Block, v: i64) {
    for i in 0..BLOCK_SIZE {
        assert_eq!(b.get(i), v, "lane {}", i);
    }
}

#[test]
fn silence_renders_one_block_of_zeros() {
    let ctx = ctx48();
    let mut s = Silence;
    let b = s.render(&ctx);
    assert_eq!(b.samples().len(), 64);
    assert_all(&b, 0);
}

#[test]
fn sine_at_zero_hz_stays_silent() {
    let ctx = ctx48();
    let mut osc = Sine::oscillator(0);
    let b = osc.render(&ctx);
    assert_all(&b, 0);
}

#[test]
fn clock_at_60_bpm_pulses_at_block_750() {
    let ctx = ctx48();
    let mut clock = Clock::bpm(60 * UNIT);
    for blk in 0..750 {
        let b = clock.render(&ctx);
        for i in 0..BLOCK_SIZE {
            assert_eq!(b.get(i), 0, "block {} lane {}", blk, i);
        }
    }
    let b = clock.render(&ctx);
    assert_eq!(b.get(0), UNIT);
    for i in 1..BLOCK_SIZE {
        assert_eq!(b.get(i), 0);
    }
}

#[test]
fn sequential_switch_cycles_through_branches() {
    let ctx = ctx48();
    let mut sw = Clock::bpm(60 * UNIT).sequential_switch(vec![
        Const(UNIT),
        Const(2 * UNIT),
        Const(3 * UNIT),
    ]);
    // 48000 samples of each branch, then the wrap back to the first.
    for _ in 0..750 {
        let b = sw.render(&ctx);
        assert_all(&b, UNIT);
    }
    for _ in 0..750 {
        let b = sw.render(&ctx);
        assert_all(&b, 2 * UNIT);
    }
    for _ in 0..750 {
        let b = sw.render(&ctx);
        assert_all(&b, 3 * UNIT);
    }
    let b = sw.render(&ctx);
    assert_all(&b, UNIT);
}

#[test]
fn clip_is_symmetric() {
    let ctx = ctx48();
    let mut up = Const(2 * UNIT).clip(Const(UNIT / 2));
    assert_all(&up.render(&ctx), UNIT / 2);
    let mut down = Const(-2 * UNIT).clip(Const(UNIT / 2));
    assert_all(&down.render(&ctx), -(UNIT / 2));
}

#[test]
fn ad_envelope_ramps_up_then_down_then_idles() {
    let ctx = ctx48();
    // Attack and decay of 0.001 s each: 480 fixed-point seconds-units,
    // crossed in steps of 10 (the sample time at 48 kHz).
    let mut env = Clock::bpm(60 * UNIT).ad_envelope(Const(480), Const(480));
    for blk in 0..750 {
        let b = env.render(&ctx);
        for i in 0..BLOCK_SIZE {
            assert_eq!(b.get(i), 0, "block {} lane {}", blk, i);
        }
    }
    let b = env.render(&ctx);
    // Rising ramp: timer t = 10*k at lane k, value = UNIT * t / 480.
    assert_eq!(b.get(0), 0);
    assert_eq!(b.get(1), 10000);
    assert_eq!(b.get(47), 470000);
    // Falling ramp from the peak.
    assert_eq!(b.get(48), 480000);
    assert_eq!(b.get(49), 470000);
    assert_eq!(b.get(63), 330000);
    let b2 = env.render(&ctx);
    assert_eq!(b2.get(31), 10000);
    assert_eq!(b2.get(32), 0);
    assert_eq!(b2.get(63), 0);
}

#[test]
fn driver_feeds_sink_and_advances_time() {
    let mut ctx = ctx48();
    let mut sink = Sink::new(Const(7), MemoryOut::new());
    ctx.render_to_sink(&mut sink);
    ctx.render_to_sink(&mut sink);
    assert_eq!(ctx.sample_count(), 128);
    assert_eq!(sink.inner.samples.len(), 128);
    for s in &sink.inner.samples {
        assert_eq!(*s, 7);
    }
}

#[test]
fn sink_renders_silence_itself() {
    let ctx = ctx48();
    let mut sink = Sink::new(Const(9), MemoryOut::new());
    let b = sink.render(&ctx);
    assert_all(&b, 0);
}

#[test]
fn context_reports_time_in_fixed_point() {
    let mut ctx = ctx48();
    assert_eq!(ctx.sample_rate(), 48000);
    assert_eq!(ctx.sample_time(), 10);
    assert_eq!(ctx.time(), 0);
    let mut sink = Sink::new(Silence, MemoryOut::new());
    for _ in 0..750 {
        ctx.render_to_sink(&mut sink);
    }
    // One second of samples: 48000 * UNIT / 48000.
    assert_eq!(ctx.time(), UNIT);
}

#[test]
fn sequential_switch_takes_several_edges_per_block() {
    let ctx = ctx48();
    // A pulse every 10 samples: six branch changes inside the first block.
    let mut sw = Clock::bpm(60 * 48000 / 10 * UNIT)
        .sequential_switch(vec![Const(1), Const(2)]);
    let b = sw.render(&ctx);
    for i in 0..BLOCK_SIZE {
        let expect = if (i / 10) % 2 == 0 { 1 } else { 2 };
        assert_eq!(b.get(i), expect, "lane {}", i);
    }
}
