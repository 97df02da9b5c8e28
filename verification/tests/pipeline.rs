//! The damper and the paced, bounded output pipeline.

use modrack::damper::LinearDamper;
use modrack::frame::{Frame, UNIT};
use modrack::output::{consumer_pop, rb_len, render_tick, StreamInstance};
use modrack::rack::Rack;

#[test]
fn damper_limits_each_step() {
    let mut damper = LinearDamper::new(1000, 0);
    // far target: each step moves exactly the bound
    assert_eq!(damper.frame(10_000), 1000);
    assert_eq!(damper.frame(10_000), 2000);
    // near target: the step lands on it
    assert_eq!(damper.frame(2500), 2500);
    // and stays there
    assert_eq!(damper.frame(2500), 2500);
    // downwards just the same
    assert_eq!(damper.frame(-10_000), 1500);
}

#[test]
fn damper_converges_within_bounded_steps() {
    let start: i64 = 0;
    let target: i64 = 123_456;
    let max_dif: i64 = 1000;
    let mut damper = LinearDamper::new(max_dif, start);
    // |target - start| / max_dif rounded up bounds the settling time
    let bound = ((target - start).abs() + max_dif - 1) / max_dif;
    let mut reached_at: Option<i64> = None;
    let mut previous_distance = (target - start).abs();
    for step in 0..bound + 8 {
        let v = damper.frame(target);
        let distance = (target - v).abs();
        // monotone convergence: the distance never grows
        assert!(distance <= previous_distance);
        previous_distance = distance;
        if v == target && reached_at.is_none() {
            reached_at = Some(step + 1);
        }
    }
    let reached_at = reached_at.expect("damper must reach a constant target");
    assert!(reached_at <= bound);
    // idempotence once settled
    assert_eq!(damper.frame(target), target);
}

#[test]
fn damper_cutoff_matches_sample_rate() {
    let damper = LinearDamper::new_cutoff(48_000);
    // 20 Hz worth of change per sample: 20 * UNIT / 48000
    assert_eq!(damper.max_dif, 20 * UNIT / 48_000);
    assert_eq!(damper.max_dif, 416);
    assert_eq!(damper.cutoff_samples(), UNIT / 416);
}

#[test]
fn ring_never_grows_beyond_capacity() {
    // a 1 kHz stream gets a 150-sample ring
    let (mut stream, mut consumer) = StreamInstance::new(1000, 2);
    let capacity = 150;
    assert_eq!(stream.free_len(), capacity);

    // push far more frames than the ring can take
    let frames: Vec<Frame> = (0..capacity + 50).map(|_| Frame::Mono(UNIT)).collect();
    let pushed = stream.push_frames(&frames);
    assert_eq!(pushed, capacity);
    assert_eq!(stream.free_len(), 0);
    assert_eq!(rb_len(&stream.producer), capacity);

    // pushing into the full ring adds nothing
    let more: Vec<Frame> = vec![Frame::Mono(1), Frame::Mono(2)];
    assert_eq!(stream.push_frames(&more), 0);
    assert_eq!(rb_len(&stream.producer), capacity);
    assert_eq!(stream.free_len(), 0);

    // the consumer drains exactly what was pushed
    let mut drained = 0;
    while consumer_pop(&mut consumer).is_some() {
        drained += 1;
    }
    assert_eq!(drained, capacity);
    assert_eq!(stream.free_len(), capacity);
}

#[test]
fn push_applies_damped_gain() {
    let (mut stream, mut consumer) = StreamInstance::new(1000, 2);
    // full volume requested; the damper starts at silence and climbs by
    // max_dif per frame
    stream.set_volume(UNIT);
    let md = stream.damper.max_dif;
    let frames: Vec<Frame> = vec![Frame::Mono(UNIT); 3];
    assert_eq!(stream.push_frames(&frames), 3);
    assert_eq!(consumer_pop(&mut consumer), Some(Frame::Mono(md)));
    assert_eq!(consumer_pop(&mut consumer), Some(Frame::Mono(2 * md)));
    assert_eq!(consumer_pop(&mut consumer), Some(Frame::Mono(3 * md)));
}

#[test]
fn muted_stream_fades_toward_silence() {
    let (mut stream, mut consumer) = StreamInstance::new(1000, 2);
    stream.set_volume(UNIT);
    let frames: Vec<Frame> = vec![Frame::Mono(UNIT); 60];
    stream.push_frames(&frames);
    while consumer_pop(&mut consumer).is_some() {}
    let level = stream.damper.current;
    assert!(level > 0);

    stream.set_muted(true);
    let mut last = level;
    let more: Vec<Frame> = vec![Frame::Mono(UNIT); 80];
    stream.push_frames(&more);
    let mut produced = Vec::new();
    while let Some(f) = consumer_pop(&mut consumer) {
        produced.push(f);
    }
    // the applied gain ramps down, never jumps
    for f in &produced {
        let v = match f {
            Frame::Mono(v) => *v,
            Frame::Stereo(a, _) => *a,
        };
        assert!(v <= last);
        assert!(last - v <= stream.damper.max_dif);
        last = v;
    }
    assert_eq!(stream.damper.current, 0);
}

#[test]
fn render_tick_respects_backpressure() {
    let mut rack = Rack::new();
    rack.add_panel();
    let osc = rack.add_module(
        &modrack::oscillator::Oscillator::describe().into_dyn(),
        0,
    );
    let sink = rack.add_module(&modrack::audio::Audio::describe().into_dyn(), 0);
    let osc_out = modrack::io::PortHandle::new(modrack::oscillator::FrameOutput::id(), osc);
    let audio_in = modrack::io::PortHandle::new(modrack::audio::AudioInput::id(), sink);
    assert!(rack.connect(osc_out, audio_in).is_ok());

    let (mut stream, mut consumer) = StreamInstance::new(1000, 2);
    let capacity = 150;

    // the first tick fills exactly the free space; the ring stays bounded
    let (requested, pushed, _rows) = render_tick(&mut rack, &mut stream);
    assert_eq!(requested, capacity);
    assert_eq!(pushed, capacity);
    assert_eq!(stream.free_len(), 0);

    // with the ring full, the next tick produces nothing: backpressure
    let (requested2, pushed2, _rows2) = render_tick(&mut rack, &mut stream);
    assert_eq!(requested2, 0);
    assert_eq!(pushed2, 0);
    assert_eq!(rb_len(&stream.producer), capacity);

    // draining some frames frees exactly that much production again
    for _ in 0..40 {
        consumer_pop(&mut consumer);
    }
    let (requested3, pushed3, _rows3) = render_tick(&mut rack, &mut stream);
    assert_eq!(requested3, 40);
    assert_eq!(pushed3, 40);
}

#[test]
fn overload_engages_protection() {
    // a large free ring relative to the damper cutoff marks the stream as
    // falling behind
    let (mut stream, _consumer) = StreamInstance::new(48_000, 2);
    // ring capacity 7200, cutoff samples 1_000_000 / 416 = 2403
    let n = stream.update_protection();
    assert_eq!(n, 7200);
    assert!(stream.protection);

    // a mostly full ring is keeping up: protection clears
    let (mut small, _c2) = StreamInstance::new(1000, 2);
    // capacity 150, cutoff 1_000_000 / 20_000 = 50
    assert_eq!(small.damper.max_dif, 20 * UNIT / 1000);
    let fill: Vec<Frame> = vec![Frame::Mono(0); 120];
    assert_eq!(small.push_frames(&fill), 120);
    let n2 = small.update_protection();
    assert_eq!(n2, 30);
    assert!(!small.protection);
}
