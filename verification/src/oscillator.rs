#![verifier::loop_isolation(false)]

//! A periodic waveform generator, evaluated once per sample.
//!
//! The phase and the amplitudes are fixed-point values; the sine shape is a
//! rational fixed-point approximation, exact at the phase's quarter points.

use vstd::prelude::*;
use crate::frame::{abs_int, Frame, UNIT};
use crate::module::{ModuleDescription, ModuleKind, PortDescription, PortId, PortType};
use crate::rack::ProcessContext;
use crate::io::{Io, PortHandle};
use crate::instance::InstanceHandle;
use crate::types::{as_sample, spec_sample, PortValue, ValueType};

verus! {

/// The frequency input of an oscillator, in fixed-point hertz.
pub struct FrequencyInput;

impl FrequencyInput {
    pub open spec fn spec_id() -> PortId {
        PortId { id: 1, value_type: ValueType::Sample }
    }

    pub open spec fn spec_default() -> PortValue {
        PortValue::Sample((70 * UNIT) as i64)
    }

    pub fn id() -> (r: PortId)
        ensures
            r == Self::spec_id(),
    {
        PortId::new(1, ValueType::Sample)
    }

    pub fn describe() -> (r: PortDescription)
        ensures
            r.id == Self::spec_id(),
            r.port_type == PortType::Input,
            r.default == Some(Self::spec_default()),
    {
        PortDescription::input(Self::id(), "freq", PortValue::Sample(70 * UNIT))
    }
}

/// The sample output of an oscillator.
pub struct FrameOutput;

impl FrameOutput {
    pub open spec fn spec_id() -> PortId {
        PortId { id: 2, value_type: ValueType::Sample }
    }

    pub fn id() -> (r: PortId)
        ensures
            r == Self::spec_id(),
    {
        PortId::new(2, ValueType::Sample)
    }

    pub fn describe() -> (r: PortDescription)
        ensures
            r.id == Self::spec_id(),
            r.port_type == PortType::Output,
    {
        PortDescription::output(Self::id(), "sample")
    }
}

/// The waveform shapes an oscillator can produce.
#[derive(Clone, Copy, PartialEq, Eq, Structural, Debug)]
pub enum Wave {
    Sine,
    Square,
    Triangle,
    Saw,
}

impl Wave {
    pub fn as_str(&self) -> (r: &'static str)
        ensures
            *self is Sine ==> r@ == "Sine"@,
            *self is Square ==> r@ == "Square"@,
            *self is Triangle ==> r@ == "Triangle"@,
            *self is Saw ==> r@ == "Saw"@,
    {
        match self {
            Wave::Sine => "Sine",
            Wave::Square => "Square",
            Wave::Triangle => "Triangle",
            Wave::Saw => "Saw",
        }
    }

    /// Every shape, for pickers.
    pub fn all() -> (r: Vec<Wave>)
        ensures
            r@ == seq![Wave::Sine, Wave::Square, Wave::Triangle, Wave::Saw],
    {
        let mut v: Vec<Wave> = Vec::new();
        v.push(Wave::Sine);
        v.push(Wave::Square);
        v.push(Wave::Triangle);
        v.push(Wave::Saw);
        proof {
            assert(v@ =~= seq![Wave::Sine, Wave::Square, Wave::Triangle, Wave::Saw]);
        }
        v
    }
}

/// `sin(pi * y / UNIT)` for `y` in `[0, UNIT]`, as the fixed-point rational
/// `16 t UNIT / (5 UNIT - 4 t)` with `t = y (UNIT - y) / UNIT`: exact at the
/// ends and the midpoint, within about 0.2% of scale elsewhere.
pub open spec fn sine_half(y: int) -> int {
    let t = y * (UNIT - y) / (UNIT as int);
    16 * t * (UNIT as int) / (5 * (UNIT as int) - 4 * t)
}

/// One period of the approximated sine over a phase in `[0, UNIT)`.
pub open spec fn sine_fp(x: int) -> int {
    if 2 * x < UNIT {
        sine_half(2 * x)
    } else {
        -sine_half(2 * x - UNIT)
    }
}

/// The half-wave approximation stays within full scale, and its intermediate
/// product stays within a quarter of scale.
pub proof fn lemma_sine_half_bounds(y: int)
    requires
        0 <= y <= UNIT,
    ensures
        0 <= sine_half(y) <= UNIT,
        0 <= y * (UNIT - y) && y * (UNIT - y) <= 1_000_000_000_000,
        0 <= y * (UNIT - y) / (UNIT as int) <= 250_000,
{
    let u = UNIT as int;
    let prod = y * (u - y);
    assert(0 <= prod && 4 * prod <= u * u) by (nonlinear_arith)
        requires 0 <= y <= u, prod == y * (u - y);
    let t = prod / u;
    assert(0 <= t && t <= 250_000) by (nonlinear_arith)
        requires 0 <= prod, 4 * prod <= u * u, t == prod / u, u == 1_000_000;
    let den = 5 * u - 4 * t;
    assert(den >= 4 * u);
    assert(16 * t * u <= u * den) by (nonlinear_arith)
        requires 0 <= t <= 250_000, den == 5 * u - 4 * t, u == 1_000_000;
    assert(0 <= 16 * t * u / den <= u) by (nonlinear_arith)
        requires 0 <= 16 * t * u, 16 * t * u <= u * den, den >= 4 * u, u == 1_000_000;
}

/// One shape evaluated at a phase in `[0, UNIT)`, between `-UNIT` and `UNIT`.
pub open spec fn wave_sample(w: Wave, x: int) -> int {
    match w {
        Wave::Sine => sine_fp(x),
        Wave::Square => if 2 * x < UNIT {
            -(UNIT as int)
        } else {
            UNIT as int
        },
        Wave::Triangle => abs_int((UNIT - x) * 4 - 2 * UNIT) - UNIT,
        Wave::Saw => 2 * x - UNIT,
    }
}

/// Every shape stays within full scale on a phase in `[0, UNIT)`.
pub proof fn lemma_wave_sample_bounds(w: Wave, x: int)
    requires
        0 <= x < UNIT,
    ensures
        -(UNIT as int) <= wave_sample(w, x) <= UNIT,
{
    match w {
        Wave::Sine => {
            if 2 * x < UNIT {
                lemma_sine_half_bounds(2 * x);
            } else {
                lemma_sine_half_bounds(2 * x - UNIT);
            }
        },
        _ => {},
    }
}

/// The emitted amplitude: the shape itself, or its nonnegative half-scale
/// image when the oscillator is not alternating.
pub open spec fn osc_amp(w: Wave, x: int, alternating: bool) -> int {
    if alternating {
        wave_sample(w, x)
    } else {
        (wave_sample(w, x) + UNIT) / 2
    }
}

/// The next phase: the phase advances by `freq / sample_rate` cycles,
/// wrapped into `[0, UNIT)`.
pub open spec fn advance_phase(x: int, freq: int, rate: int) -> int {
    let inc = if freq >= 0 {
        freq / rate
    } else {
        -((-freq) / rate)
    };
    let m = if inc >= 0 {
        inc % (UNIT as int)
    } else {
        -((-inc) % (UNIT as int))
    };
    let y = x + m;
    if y < 0 {
        y + UNIT
    } else if y >= UNIT {
        y - UNIT
    } else {
        y
    }
}

/// One oscillator evaluation step, as a relation between the states before
/// and after: the amplitude of the old phase is written on the sample
/// output, the phase advances by the frequency input, and nothing else of
/// the module or the graph moves.
pub open spec fn osc_step(
    pre: Oscillator,
    post: Oscillator,
    h: InstanceHandle,
    rate: u32,
    io_pre: Io,
    io_post: Io,
    sunk_pre: Seq<Frame>,
    sunk_post: Seq<Frame>,
) -> bool {
    let freq = spec_sample(
        io_pre.spec_get_input(h, FrequencyInput::spec_id(), FrequencyInput::spec_default()),
        70 * UNIT,
    );
    let amp = osc_amp(pre.wave, pre.index as int, pre.alternating);
    &&& post.wave == pre.wave
    &&& post.alternating == pre.alternating
    &&& post.wf()
    &&& io_pre.wrote_output(
        io_post,
        PortHandle { id: FrameOutput::spec_id(), instance: h },
        PortValue::Sample(amp as i64),
    )
    &&& post.index == advance_phase(pre.index as int, freq, rate as int)
    &&& sunk_post == sunk_pre
}

/// A periodic waveform generator.
pub struct Oscillator {
    /// The shape being produced.
    pub wave: Wave,
    /// Current phase within one period, in `[0, UNIT)`.
    pub index: i64,
    /// When false the output is shifted into `[0, UNIT]` instead of
    /// alternating around silence.
    pub alternating: bool,
}

impl Oscillator {
    pub open spec fn wf(self) -> bool {
        0 <= self.index < UNIT
    }

    pub fn new() -> (r: Self)
        ensures
            r.wave == Wave::Sine,
            r.index == 0,
            r.alternating,
            r.wf(),
    {
        Self { wave: Wave::Sine, index: 0, alternating: true }
    }

    pub fn describe() -> (r: ModuleDescription)
        ensures
            r.kind == ModuleKind::Oscillator,
            r.name@ == "Oscillator"@,
            r.inputs@.len() == 1,
            r.inputs@[0].id == FrequencyInput::spec_id(),
            r.inputs@[0].default == Some(FrequencyInput::spec_default()),
            r.inputs@[0].port_type == PortType::Input,
            r.outputs@.len() == 1,
            r.outputs@[0].id == FrameOutput::spec_id(),
            r.outputs@[0].port_type == PortType::Output,
    {
        ModuleDescription::new(ModuleKind::Oscillator)
            .name("Oscillator")
            .port(FrequencyInput::describe())
            .port(FrameOutput::describe())
    }

    /// One evaluation step: emits the amplitude of the current phase on the
    /// sample output, then advances the phase by the frequency input.
    pub fn process(&mut self, ctx: &mut ProcessContext)
        requires
            old(self).wf(),
            old(ctx).io.wf(),
            old(ctx).sample_rate >= 1,
        ensures
            final(ctx).io.wf(),
            final(ctx).sample_rate == old(ctx).sample_rate,
            final(ctx).handle == old(ctx).handle,
            osc_step(
                *old(self),
                *final(self),
                old(ctx).handle,
                old(ctx).sample_rate,
                old(ctx).io,
                final(ctx).io,
                old(ctx).sunk@,
                final(ctx).sunk@,
            ),
    {
        proof {
            lemma_wave_sample_bounds(self.wave, self.index as int);
        }
        let shape: i64 = match self.wave {
            Wave::Sine => {
                let x: i64 = self.index;
                if 2 * x < UNIT {
                    sine_half_exec(2 * x)
                } else {
                    -sine_half_exec(2 * x - UNIT)
                }
            },
            Wave::Square => if 2 * self.index < UNIT {
                -UNIT
            } else {
                UNIT
            },
            Wave::Triangle => {
                let v: i64 = (UNIT - self.index) * 4 - 2 * UNIT;
                let a: i64 = if v < 0 {
                    -v
                } else {
                    v
                };
                a - UNIT
            },
            Wave::Saw => 2 * self.index - UNIT,
        };
        let amp: i64 = if self.alternating {
            shape
        } else {
            (shape + UNIT) / 2
        };
        assert(amp == osc_amp(self.wave, self.index as int, self.alternating));

        let freq_desc = FrequencyInput::describe().into_dyn();
        let freq = as_sample(ctx.get_input(&freq_desc), 70 * UNIT);

        // advance the phase by freq / rate cycles, wrapped into one period
        let rate: i128 = ctx.sample_rate() as i128;
        let f: i128 = freq as i128;
        let inc: i128 = if f >= 0 {
            f / rate
        } else {
            -((-f) / rate)
        };
        let u: i128 = UNIT as i128;
        let m: i128 = if inc >= 0 {
            inc % u
        } else {
            -((-inc) % u)
        };
        let y: i128 = self.index as i128 + m;
        let next: i128 = if y < 0 {
            y + u
        } else if y >= u {
            y - u
        } else {
            y
        };
        self.index = next as i64;

        ctx.set_output(FrameOutput::id(), PortValue::Sample(amp));
    }
}

/// Fixed-point half-wave sine.
fn sine_half_exec(y: i64) -> (r: i64)
    requires
        0 <= y <= UNIT,
    ensures
        r == sine_half(y as int),
        0 <= r <= UNIT,
{
    proof {
        lemma_sine_half_bounds(y as int);
    }
    let u: i128 = UNIT as i128;
    let yy: i128 = y as i128;
    let prod: i128 = yy * (u - yy);
    let t: i128 = prod / u;
    let num: i128 = 16 * t * u;
    let den: i128 = 5 * u - 4 * t;
    let r128: i128 = num / den;
    r128 as i64
}

impl Default for Oscillator {
    fn default() -> (r: Self)
        ensures
            r.wave == Wave::Sine,
            r.index == 0,
            r.alternating,
            r.wf(),
    {
        Self::new()
    }
}

} // verus!
