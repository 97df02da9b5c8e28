//! Module behaviour: oscillator shapes, end-to-end evaluation, keyboard
//! pitch, arithmetic, scope, playback, noise.

use modrack::audio::{Audio, AudioInput};
use modrack::file::{File, FileOutput};
use modrack::frame::{fixed_div, fixed_mul, sat_add, sat_sub, Frame, UNIT};
use modrack::instance::InstanceHandle;
use modrack::io::{Io, PortHandle};
use modrack::keyboard::{Note, Octave, Tone};
use modrack::module::PortId;
use modrack::keyboard::{Keyboard, KeyboardFreqOutput, KeyboardPressedOutput};
use modrack::noise::{Noise, NoiseOutput};
use modrack::ops::{InValueA, InValueB, Operation, Operator, OutValue};
use modrack::oscillator::{FrameOutput, FrequencyInput, Oscillator, Wave};
use modrack::rack::{ProcessContext, Rack};
use modrack::scope::{Scope, ScopeInput, ScopeState};
use modrack::types::{Conversion, PortValue, ValueType};

/// A context whose instance output is wired to one probe input, so a
/// module's writes can be observed.
fn probed_context(output_id: PortId) -> (ProcessContext, PortHandle) {
    let h = InstanceHandle::from_raw(1);
    let probe_owner = InstanceHandle::from_raw(2);
    let probe = PortHandle::new(PortId::new(990, output_id.value_type), probe_owner);
    let mut io = Io::new();
    let out = PortHandle::new(output_id, h);
    assert!(matches!(io.connect(out, probe), modrack::io::ConnectResult::Accept));
    let ctx = ProcessContext {
        sample_rate: 48_000,
        handle: h,
        io,
        sunk: Vec::new(),
    };
    (ctx, probe)
}

#[test]
fn oscillator_square_sequence() {
    let (mut ctx, probe) = probed_context(FrameOutput::id());
    let mut osc = Oscillator::new();
    osc.wave = Wave::Square;
    // 12 kHz at 48 kHz: a quarter period per sample
    ctx.io.set_input_dyn(
        PortHandle::new(FrequencyInput::id(), ctx.handle),
        PortValue::Sample(12_000 * UNIT),
    );
    let mut seen = Vec::new();
    for _ in 0..8 {
        osc.process(&mut ctx);
        seen.push(ctx.io.get_input_dyn(probe).unwrap());
    }
    // phases 0, .25, .5, .75, 0, ... give -1, -1, +1, +1 in fixed point
    let lo = PortValue::Sample(-UNIT);
    let hi = PortValue::Sample(UNIT);
    assert_eq!(seen, vec![lo, lo, hi, hi, lo, lo, hi, hi]);
}

#[test]
fn oscillator_saw_sequence() {
    let (mut ctx, probe) = probed_context(FrameOutput::id());
    let mut osc = Oscillator::new();
    osc.wave = Wave::Saw;
    ctx.io.set_input_dyn(
        PortHandle::new(FrequencyInput::id(), ctx.handle),
        PortValue::Sample(12_000 * UNIT),
    );
    let mut seen = Vec::new();
    for _ in 0..4 {
        osc.process(&mut ctx);
        seen.push(ctx.io.get_input_dyn(probe).unwrap());
    }
    assert_eq!(
        seen,
        vec![
            PortValue::Sample(-UNIT),
            PortValue::Sample(-UNIT / 2),
            PortValue::Sample(0),
            PortValue::Sample(UNIT / 2),
        ]
    );
}

#[test]
fn end_to_end_sine_into_sink() {
    // oscillator at 440 Hz, 48 kHz, wired into an audio sink: each sample's
    // mixed output follows sin(2 pi 440 n / 48000) within the fixed-point
    // approximation's tolerance
    let mut rack = Rack::new();
    rack.add_panel();
    let osc = rack.add_module(&Oscillator::describe().into_dyn(), 0);
    let sink = rack.add_module(&Audio::describe().into_dyn(), 0);
    let osc_out = PortHandle::new(FrameOutput::id(), osc);
    let audio_in = PortHandle::new(AudioInput::id(), sink);
    assert!(rack.connect(osc_out, audio_in).is_ok());
    rack.io.set_input_dyn(
        PortHandle::new(FrequencyInput::id(), osc),
        PortValue::Sample(440 * UNIT),
    );

    let frames = rack.process_amount(48_000, 100);
    assert_eq!(frames.len(), 100);
    for (n, per_sample) in frames.iter().enumerate() {
        // exactly one sink contributes
        assert_eq!(per_sample.len(), 1);
        let got = match per_sample[0] {
            Frame::Mono(v) => v as f64 / UNIT as f64,
            Frame::Stereo(..) => panic!("mono expected"),
        };
        let want = (2.0 * std::f64::consts::PI * 440.0 * n as f64 / 48_000.0).sin();
        assert!(
            (got - want).abs() < 0.005,
            "sample {}: got {} want {}",
            n,
            got,
            want
        );
    }
}

#[test]
fn sine_quarter_points_are_exact() {
    let (mut ctx, probe) = probed_context(FrameOutput::id());
    let mut osc = Oscillator::new();
    // 12 kHz at 48 kHz hits the quarter points of the period
    ctx.io.set_input_dyn(
        PortHandle::new(FrequencyInput::id(), ctx.handle),
        PortValue::Sample(12_000 * UNIT),
    );
    let mut seen = Vec::new();
    for _ in 0..4 {
        osc.process(&mut ctx);
        seen.push(ctx.io.get_input_dyn(probe).unwrap());
    }
    assert_eq!(
        seen,
        vec![
            PortValue::Sample(0),
            PortValue::Sample(UNIT),
            PortValue::Sample(0),
            PortValue::Sample(-UNIT),
        ]
    );
}

#[test]
fn keyboard_pitch_table() {
    // A4 is exactly 440 Hz in fixed point
    let a4 = Note { octave: Octave { index: 4 }, tone: Tone::A };
    assert_eq!(a4.offset(), 0);
    assert_eq!(a4.freq(), 440 * UNIT);

    // A0 is exactly 27.5 Hz; octaves double
    let a0 = Note { octave: Octave { index: 0 }, tone: Tone::A };
    assert_eq!(a0.freq(), 27_500_000);
    let a1 = Note { octave: Octave { index: 1 }, tone: Tone::A };
    assert_eq!(a1.freq(), 55_000_000);

    // middle C within a cent of 261.6256 Hz
    let c4 = Note { octave: Octave { index: 4 }, tone: Tone::C };
    assert_eq!(c4.offset(), -9);
    let got = c4.freq() as f64 / UNIT as f64;
    assert!((got - 261.6256).abs() < 0.02);

    let notes = Octave { index: 2 }.notes();
    assert_eq!(notes.len(), 12);
    assert!(matches!(notes[0].tone, Tone::C));
    assert!(notes[1].tone.is_sharp());
    assert_eq!(notes[9].freq(), 110_000_000);
}

#[test]
fn operator_arithmetic_is_fixed_point() {
    // the scalar arithmetic behind the operation module
    assert_eq!(sat_add(2 * UNIT, 3 * UNIT), 5 * UNIT);
    assert_eq!(sat_sub(2 * UNIT, 3 * UNIT), -UNIT);
    assert_eq!(sat_add(i64::MAX, 1), i64::MAX);
    assert_eq!(sat_sub(i64::MIN, 1), i64::MIN);
    // 1.5 * 2 = 3; 0.5 * 0.5 = 0.25
    assert_eq!(fixed_mul(1_500_000, 2_000_000), 3_000_000);
    assert_eq!(fixed_mul(500_000, 500_000), 250_000);
    assert_eq!(fixed_mul(-500_000, 500_000), -250_000);
    // 3 / 2 = 1.5; division by zero yields zero
    assert_eq!(fixed_div(3_000_000, 2_000_000), 1_500_000);
    assert_eq!(fixed_div(-3_000_000, 2_000_000), -1_500_000);
    assert_eq!(fixed_div(42, 0), 0);
    assert_eq!(fixed_mul(i64::MAX, 2 * UNIT), i64::MAX);
}

#[test]
fn operation_module_writes_result() {
    let (mut ctx, probe) = probed_context(OutValue::id());
    let mut op = Operation::new();
    op.operator = Operator::Mul;
    ctx.io.set_input_dyn(
        PortHandle::new(InValueA::id(), ctx.handle),
        PortValue::Sample(1_500_000),
    );
    ctx.io.set_input_dyn(
        PortHandle::new(InValueB::id(), ctx.handle),
        PortValue::Sample(2_000_000),
    );
    op.process(&mut ctx);
    assert_eq!(ctx.io.get_input_dyn(probe), Some(PortValue::Sample(3_000_000)));
}

#[test]
fn operator_labels() {
    assert_eq!(Operator::Add.as_str(), "Add");
    assert_eq!(Operator::Div.as_str(), "Divide");
    assert_eq!(Wave::Sine.as_str(), "Sine");
    assert_eq!(modrack::filter::FilterType::LowPass.as_str(), "lowpass");
    assert_eq!(modrack::filter::FilterType::HighPass.as_str(), "highpass");
    assert_eq!(
        modrack::io::ConnectResultErr::SameInstance.as_str(),
        "same instance"
    );
    assert_eq!(
        modrack::io::ConnectResultErr::InCompatible.as_str(),
        "incompatible"
    );
}

#[test]
fn scope_records_then_waits() {
    let h = InstanceHandle::from_raw(1);
    let mut ctx = ProcessContext {
        sample_rate: 48_000,
        handle: h,
        io: Io::new(),
        sunk: Vec::new(),
    };
    let mut scope = Scope::new();
    scope.size = 2;
    scope.interval = 1;
    ctx.io.set_input_dyn(
        PortHandle::new(ScopeInput::id(), h),
        PortValue::Sample(7),
    );

    scope.process(&mut ctx);
    assert_eq!(scope.buffer(), &vec![7]);
    assert_eq!(scope.state, ScopeState::Updating { pos: 1 });
    scope.process(&mut ctx);
    assert_eq!(scope.buffer(), &vec![7, 7]);
    assert_eq!(scope.state, ScopeState::Updating { pos: 2 });
    // the window is full: wait out the interval
    scope.process(&mut ctx);
    assert_eq!(scope.state, ScopeState::Waiting { waited: 0 });
    scope.process(&mut ctx);
    assert_eq!(scope.state, ScopeState::Waiting { waited: 1 });
    scope.process(&mut ctx);
    assert_eq!(scope.state, ScopeState::Updating { pos: 0 });
    // recording overwrites in place now
    ctx.io.set_input_dyn(
        PortHandle::new(ScopeInput::id(), h),
        PortValue::Sample(9),
    );
    scope.process(&mut ctx);
    assert_eq!(scope.buffer(), &vec![9, 7]);
}

#[test]
fn scope_accepts_frames_through_conversion() {
    let mut rack = Rack::new();
    rack.add_panel();
    let file = rack.add_module(&File::describe().into_dyn(), 0);
    let scope = rack.add_module(&Scope::describe().into_dyn(), 0);
    let file_out = PortHandle::new(FileOutput::id(), file);
    let scope_in = PortHandle::new(ScopeInput::id(), scope);
    // frame output into scalar input: accepted through the registered
    // frame-to-sample conversion
    assert!(rack.connect(file_out, scope_in).is_ok());
    rack.io
        .set_output_dyn(file_out, PortValue::Frame(Frame::Stereo(10, 20)));
    let role = ScopeInput::describe().into_dyn();
    assert_eq!(rack.io.get_input(scope, &role), PortValue::Sample(15));
}

#[test]
fn file_plays_buffer_then_stops() {
    let (mut ctx, probe) = probed_context(FileOutput::id());
    let mut file = File::new();
    file.load_buffer(vec![Frame::Mono(10), Frame::Mono(20)]);
    file.playing = true;

    file.process(&mut ctx);
    assert_eq!(
        ctx.io.get_input_dyn(probe),
        Some(PortValue::Frame(Frame::Mono(10)))
    );
    file.process(&mut ctx);
    assert_eq!(
        ctx.io.get_input_dyn(probe),
        Some(PortValue::Frame(Frame::Mono(20)))
    );
    // past the end: playback stops, rewinds, and emits silence
    file.process(&mut ctx);
    assert_eq!(
        ctx.io.get_input_dyn(probe),
        Some(PortValue::Frame(Frame::Mono(0)))
    );
    assert!(!file.playing);
    assert_eq!(file.seek, 0);
}

#[test]
fn noise_stays_within_full_scale() {
    let (mut ctx, probe) = probed_context(NoiseOutput::id());
    let mut noise = Noise::new();
    let mut distinct = std::collections::HashSet::new();
    for _ in 0..64 {
        noise.process(&mut ctx);
        match ctx.io.get_input_dyn(probe) {
            Some(PortValue::Sample(s)) => {
                assert!(-UNIT <= s && s <= UNIT);
                distinct.insert(s);
            }
            other => panic!("expected a scalar, got {:?}", other),
        }
    }
    // a constant source would be no noise at all
    assert!(distinct.len() > 1);
}

#[test]
fn frames_mix_and_scale() {
    let frames = vec![Frame::Mono(10), Frame::Stereo(1, 2), Frame::Mono(100)];
    assert_eq!(Frame::mix(&frames), Frame::Stereo(111, 112));
    assert_eq!(Frame::mix(&Vec::new()), Frame::Mono(0));
    assert_eq!(Frame::Stereo(10, 20).as_mono(), 15);
    assert_eq!(Frame::Mono(7).as_tuple(), (7, 7));
    assert_eq!(
        Frame::Stereo(2 * UNIT, -2 * UNIT).scale(UNIT / 2),
        Frame::Stereo(UNIT, -UNIT)
    );
    assert_eq!(
        Conversion::FrameToSample.apply(PortValue::Frame(Frame::Stereo(2, 4))),
        PortValue::Sample(3)
    );
    assert_eq!(
        Conversion::SampleToFrame.apply(PortValue::Sample(9)),
        PortValue::Frame(Frame::Mono(9))
    );
    assert_eq!(PortValue::Bool(true).as_value(), UNIT);
    assert_eq!(PortValue::Frame(Frame::Mono(5)).as_value(), 5);
    assert_eq!(PortValue::Sample(3).get_type(), ValueType::Sample);
}

#[test]
fn keyboard_module_emits_held_note() {
    let h = InstanceHandle::from_raw(1);
    let freq_probe_owner = InstanceHandle::from_raw(2);
    let freq_probe = PortHandle::new(PortId::new(991, ValueType::Sample), freq_probe_owner);
    let pressed_probe = PortHandle::new(PortId::new(992, ValueType::Bool), freq_probe_owner);
    let mut io = Io::new();
    assert!(matches!(
        io.connect(PortHandle::new(KeyboardFreqOutput::id(), h), freq_probe),
        modrack::io::ConnectResult::Accept
    ));
    assert!(matches!(
        io.connect(PortHandle::new(KeyboardPressedOutput::id(), h), pressed_probe),
        modrack::io::ConnectResult::Accept
    ));
    let mut ctx = ProcessContext { sample_rate: 48_000, handle: h, io, sunk: Vec::new() };

    let mut keyboard = Keyboard::new();
    keyboard.process(&mut ctx);
    assert_eq!(ctx.io.get_input_dyn(freq_probe), Some(PortValue::Sample(0)));
    assert_eq!(ctx.io.get_input_dyn(pressed_probe), Some(PortValue::Bool(false)));

    keyboard.set_pressed(Some(Note { octave: Octave { index: 4 }, tone: Tone::A }));
    keyboard.process(&mut ctx);
    assert_eq!(
        ctx.io.get_input_dyn(freq_probe),
        Some(PortValue::Sample(440 * UNIT))
    );
    assert_eq!(ctx.io.get_input_dyn(pressed_probe), Some(PortValue::Bool(true)));
}

#[test]
fn audio_module_contributes_scaled_frames() {
    let h = InstanceHandle::from_raw(1);
    let mut ctx = ProcessContext {
        sample_rate: 48_000,
        handle: h,
        io: Io::new(),
        sunk: Vec::new(),
    };
    let mut audio = Audio::new();
    audio.volume = UNIT / 2;
    ctx.io.set_input_dyn(
        PortHandle::new(AudioInput::id(), h),
        PortValue::Frame(Frame::Mono(UNIT)),
    );
    audio.process(&mut ctx);
    assert_eq!(ctx.sunk, vec![Frame::Mono(UNIT / 2)]);
}
