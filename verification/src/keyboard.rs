#![verifier::loop_isolation(false)]

//! A musical keyboard module: while a note is held it emits the note's
//! frequency and a pressed flag.
//!
//! Note frequencies are fixed-point: one octave is tabulated and higher
//! octaves double it, so A4 is exactly 440 Hz in millionths.

use vstd::prelude::*;
use crate::frame::Frame;
use crate::instance::InstanceHandle;
use crate::io::{Io, PortHandle};
use crate::module::{ModuleDescription, ModuleKind, PortDescription, PortId, PortType};
use crate::rack::ProcessContext;
use crate::types::{PortValue, ValueType};

verus! {

/// The twelve tones of one octave.
#[derive(Clone, Copy, PartialEq, Eq, Structural, Debug)]
pub enum Tone {
    C,
    Cs,
    D,
    Ds,
    E,
    F,
    Fs,
    G,
    Gs,
    A,
    As,
    B,
}

impl Tone {
    /// The tone's position within its octave, C first.
    pub open spec fn spec_index(self) -> int {
        match self {
            Tone::C => 0,
            Tone::Cs => 1,
            Tone::D => 2,
            Tone::Ds => 3,
            Tone::E => 4,
            Tone::F => 5,
            Tone::Fs => 6,
            Tone::G => 7,
            Tone::Gs => 8,
            Tone::A => 9,
            Tone::As => 10,
            Tone::B => 11,
        }
    }

    pub fn index(&self) -> (r: u32)
        ensures
            r == self.spec_index(),
    {
        match self {
            Tone::C => 0,
            Tone::Cs => 1,
            Tone::D => 2,
            Tone::Ds => 3,
            Tone::E => 4,
            Tone::F => 5,
            Tone::Fs => 6,
            Tone::G => 7,
            Tone::Gs => 8,
            Tone::A => 9,
            Tone::As => 10,
            Tone::B => 11,
        }
    }

    pub fn is_sharp(&self) -> (r: bool)
        ensures
            r <==> (*self is Cs || *self is Ds || *self is Fs || *self is Gs || *self is As),
    {
        match self {
            Tone::Cs | Tone::Ds | Tone::Fs | Tone::Gs | Tone::As => true,
            _ => false,
        }
    }

    pub fn as_str(&self) -> (r: &'static str)
        ensures
            *self is C ==> r@ == "C"@,
            *self is A ==> r@ == "A"@,
    {
        match self {
            Tone::C => "C",
            Tone::Cs => "C#",
            Tone::D => "D",
            Tone::Ds => "D#",
            Tone::E => "E",
            Tone::F => "F",
            Tone::Fs => "F#",
            Tone::G => "G",
            Tone::Gs => "G#",
            Tone::A => "A",
            Tone::As => "A#",
            Tone::B => "B",
        }
    }

    /// The twelve tones in octave order.
    pub fn all() -> (r: Vec<Tone>)
        ensures
            r@.len() == 12,
            forall|i: int| 0 <= i < 12 ==> (#[trigger] r@[i]).spec_index() == i,
    {
        let mut v: Vec<Tone> = Vec::new();
        v.push(Tone::C);
        v.push(Tone::Cs);
        v.push(Tone::D);
        v.push(Tone::Ds);
        v.push(Tone::E);
        v.push(Tone::F);
        v.push(Tone::Fs);
        v.push(Tone::G);
        v.push(Tone::Gs);
        v.push(Tone::A);
        v.push(Tone::As);
        v.push(Tone::B);
        v
    }

    /// Fixed-point frequency of this tone in octave zero, from C0 at about
    /// 16.35 Hz up to B0; A0 is exactly 27.5 Hz in millionths.
    pub open spec fn spec_base_freq(self) -> int {
        match self {
            Tone::C => 16_351_598,
            Tone::Cs => 17_323_914,
            Tone::D => 18_354_048,
            Tone::Ds => 19_445_436,
            Tone::E => 20_601_722,
            Tone::F => 21_826_764,
            Tone::Fs => 23_124_651,
            Tone::G => 24_499_715,
            Tone::Gs => 25_956_544,
            Tone::A => 27_500_000,
            Tone::As => 29_135_235,
            Tone::B => 30_867_706,
        }
    }

    pub fn base_freq(&self) -> (r: i64)
        ensures
            r == self.spec_base_freq(),
            16_351_598 <= r <= 30_867_706,
    {
        match self {
            Tone::C => 16_351_598,
            Tone::Cs => 17_323_914,
            Tone::D => 18_354_048,
            Tone::Ds => 19_445_436,
            Tone::E => 20_601_722,
            Tone::F => 21_826_764,
            Tone::Fs => 23_124_651,
            Tone::G => 24_499_715,
            Tone::Gs => 25_956_544,
            Tone::A => 27_500_000,
            Tone::As => 29_135_235,
            Tone::B => 30_867_706,
        }
    }
}

/// `2^n`.
pub open spec fn pow2(n: nat) -> int
    decreases n,
{
    if n == 0 {
        1
    } else {
        2 * pow2((n - 1) as nat)
    }
}

/// One octave of the keyboard.
#[derive(Clone, Copy, PartialEq, Eq, Structural, Debug)]
pub struct Octave {
    pub index: u32,
}

impl Octave {
    /// The twelve notes of this octave, in tone order.
    pub fn notes(&self) -> (r: Vec<Note>)
        ensures
            r@.len() == 12,
            forall|i: int|
                0 <= i < 12 ==> (#[trigger] r@[i]).octave == *self && r@[i].tone.spec_index() == i,
    {
        let tones = Tone::all();
        let mut out: Vec<Note> = Vec::new();
        let mut i: usize = 0;
        while i < tones.len()
            invariant
                i <= tones@.len(),
                tones@.len() == 12,
                forall|k: int| 0 <= k < 12 ==> (#[trigger] tones@[k]).spec_index() == k,
                out@.len() == i,
                forall|k: int|
                    0 <= k < i ==> (#[trigger] out@[k]).octave == *self && out@[k].tone.spec_index()
                        == k,
            decreases tones@.len() - i,
        {
            out.push(Note { octave: *self, tone: tones[i] });
            i = i + 1;
        }
        out
    }
}

/// One note: an octave and a tone within it.
#[derive(Clone, Copy, PartialEq, Eq, Structural, Debug)]
pub struct Note {
    pub octave: Octave,
    pub tone: Tone,
}

impl Note {
    /// Semitones between this note and A4, the 440 Hz reference.
    pub fn offset(&self) -> (r: i64)
        requires
            self.octave.index <= 1000,
        ensures
            r == self.tone.spec_index() + (self.octave.index - 4) * 12 - 9,
    {
        self.tone.index() as i64 + ((self.octave.index as i64 - 4) * 12) - 9
    }

    /// The note's fixed-point frequency: its tone's base frequency doubled
    /// once per octave.
    pub open spec fn spec_freq(self) -> int {
        self.tone.spec_base_freq() * pow2(self.octave.index as nat)
    }

    pub fn freq(&self) -> (r: i64)
        requires
            self.octave.index <= 8,
        ensures
            r == self.spec_freq(),
    {
        let base = self.tone.base_freq();
        let mut f: i64 = base;
        let mut i: u32 = 0;
        proof {
            lemma_pow2_le(self.octave.index as nat);
        }
        while i < self.octave.index
            invariant
                i <= self.octave.index <= 8,
                f == self.tone.spec_base_freq() * pow2(i as nat),
                f <= 30_867_706 * pow2(i as nat),
                f >= 0,
            decreases self.octave.index - i,
        {
            proof {
                lemma_pow2_le(i as nat);
                assert(f <= 30_867_706 * 256) by (nonlinear_arith)
                    requires f <= 30_867_706 * pow2(i as nat), pow2(i as nat) <= 256, f >= 0;
            }
            f = f * 2;
            i = i + 1;
            proof {
                assert(pow2(i as nat) == 2 * pow2((i - 1) as nat));
                assert(f == self.tone.spec_base_freq() * pow2(i as nat)) by (nonlinear_arith)
                    requires
                        f == 2 * (self.tone.spec_base_freq() * pow2((i - 1) as nat)),
                        pow2(i as nat) == 2 * pow2((i - 1) as nat);
                assert(f <= 30_867_706 * pow2(i as nat)) by (nonlinear_arith)
                    requires
                        f == self.tone.spec_base_freq() * pow2(i as nat),
                        self.tone.spec_base_freq() <= 30_867_706,
                        pow2(i as nat) >= 0;
                assert(f >= 0) by (nonlinear_arith)
                    requires
                        f == self.tone.spec_base_freq() * pow2(i as nat),
                        self.tone.spec_base_freq() >= 0,
                        pow2(i as nat) >= 0;
            }
        }
        f
    }
}

/// Doublings up to the keyboard's highest octave stay small.
proof fn lemma_pow2_le(n: nat)
    requires
        n <= 8,
    ensures
        1 <= pow2(n) <= 256,
{
    assert(pow2(0) == 1);
    assert(pow2(1) == 2);
    assert(pow2(2) == 4);
    assert(pow2(3) == 8);
    assert(pow2(4) == 16);
    assert(pow2(5) == 32);
    assert(pow2(6) == 64);
    assert(pow2(7) == 128);
    assert(pow2(8) == 256);
}

/// The frequency output of the keyboard.
pub struct KeyboardFreqOutput;

impl KeyboardFreqOutput {
    pub open spec fn spec_id() -> PortId {
        PortId { id: 9, value_type: ValueType::Sample }
    }

    pub fn id() -> (r: PortId)
        ensures
            r == Self::spec_id(),
    {
        PortId::new(9, ValueType::Sample)
    }

    pub fn describe() -> (r: PortDescription)
        ensures
            r.id == Self::spec_id(),
            r.port_type == PortType::Output,
    {
        PortDescription::output(Self::id(), "out freq")
    }
}

/// The key-pressed output of the keyboard.
pub struct KeyboardPressedOutput;

impl KeyboardPressedOutput {
    pub open spec fn spec_id() -> PortId {
        PortId { id: 10, value_type: ValueType::Bool }
    }

    pub fn id() -> (r: PortId)
        ensures
            r == Self::spec_id(),
    {
        PortId::new(10, ValueType::Bool)
    }

    pub fn describe() -> (r: PortDescription)
        ensures
            r.id == Self::spec_id(),
            r.port_type == PortType::Output,
    {
        PortDescription::output(Self::id(), "pressed")
    }
}

/// One keyboard evaluation step: the held note's frequency (or zero) goes on
/// the frequency output and the held flag on the pressed output; nothing
/// else moves.
pub open spec fn keyboard_step(
    pre: Keyboard,
    post: Keyboard,
    h: InstanceHandle,
    rate: u32,
    io_pre: Io,
    io_post: Io,
    sunk_pre: Seq<Frame>,
    sunk_post: Seq<Frame>,
) -> bool {
    let freq = match pre.pressed {
        Some(n) => n.spec_freq(),
        None => 0,
    };
    let held = pre.pressed is Some;
    let freq_port = PortHandle { id: KeyboardFreqOutput::spec_id(), instance: h };
    let pressed_port = PortHandle { id: KeyboardPressedOutput::spec_id(), instance: h };
    &&& post == pre
    &&& io_post.connections@ == io_pre.connections@
    &&& io_post.conversions@ == io_pre.conversions@
    &&& io_post.processing_order@ == io_pre.processing_order@
    &&& forall|q: PortHandle|
        io_post.staged(q) == if io_pre.connected(pressed_port, q) {
            Some(PortValue::Bool(held))
        } else if io_pre.connected(freq_port, q) {
            Some(PortValue::Sample(freq as i64))
        } else {
            io_pre.staged(q)
        }
    &&& sunk_post == sunk_pre
}

/// A keyboard: emits the held note's frequency and whether one is held.
pub struct Keyboard {
    pub pressed: Option<Note>,
}

impl Keyboard {
    pub open spec fn wf(self) -> bool {
        self.pressed is Some ==> self.pressed->0.octave.index <= 8
    }

    pub fn new() -> (r: Self)
        ensures
            r.pressed is None,
            r.wf(),
    {
        Self { pressed: None }
    }

    /// Presses a key (or releases all, with `None`).
    pub fn set_pressed(&mut self, note: Option<Note>)
        requires
            note is Some ==> note->0.octave.index <= 8,
        ensures
            final(self).pressed == note,
            final(self).wf(),
    {
        self.pressed = note;
    }

    pub fn describe() -> (r: ModuleDescription)
        ensures
            r.kind == ModuleKind::Keyboard,
            r.name@ == "Keyboard"@,
            r.inputs@.len() == 0,
            r.outputs@.len() == 2,
            r.outputs@[0].id == KeyboardFreqOutput::spec_id(),
            r.outputs@[1].id == KeyboardPressedOutput::spec_id(),
    {
        ModuleDescription::new(ModuleKind::Keyboard)
            .name("Keyboard")
            .port(KeyboardFreqOutput::describe())
            .port(KeyboardPressedOutput::describe())
    }

    /// One evaluation step: with a held note, its frequency and `true`;
    /// without one, zero and `false`.
    pub fn process(&mut self, ctx: &mut ProcessContext)
        requires
            old(self).wf(),
            old(ctx).io.wf(),
        ensures
            final(ctx).io.wf(),
            final(ctx).sample_rate == old(ctx).sample_rate,
            final(ctx).handle == old(ctx).handle,
            keyboard_step(
                *old(self),
                *final(self),
                old(ctx).handle,
                old(ctx).sample_rate,
                old(ctx).io,
                final(ctx).io,
                old(ctx).sunk@,
                final(ctx).sunk@,
            ),
    {
        let (freq, held): (i64, bool) = match &self.pressed {
            Option::Some(note) => (note.freq(), true),
            Option::None => (0, false),
        };
        ctx.set_output(KeyboardFreqOutput::id(), PortValue::Sample(freq));
        ctx.set_output(KeyboardPressedOutput::id(), PortValue::Bool(held));
    }
}

impl Default for Keyboard {
    fn default() -> (r: Self)
        ensures
            r.pressed is None,
            r.wf(),
    {
        Self::new()
    }
}

} // verus!
