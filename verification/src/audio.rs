#![verifier::loop_isolation(false)]

//! The audio sink module: what it reads each sample is contributed, scaled
//! by its volume, to the rack's mixed output.

use vstd::prelude::*;
use crate::frame::{Frame, UNIT};
use crate::module::{ModuleDescription, ModuleKind, PortDescription, PortId, PortType};
use crate::instance::InstanceHandle;
use crate::io::Io;
use crate::rack::ProcessContext;
use crate::types::{as_frame, spec_frame, Conversion, PortValue, ValueType};

verus! {

/// The frame input of an audio sink.  Scalars convert to mono frames, so an
/// oscillator can feed it directly.
pub struct AudioInput;

impl AudioInput {
    pub open spec fn spec_id() -> PortId {
        PortId { id: 3, value_type: ValueType::Frame }
    }

    pub open spec fn spec_default() -> PortValue {
        PortValue::Frame(Frame::Mono(0))
    }

    pub fn id() -> (r: PortId)
        ensures
            r == Self::spec_id(),
    {
        PortId::new(3, ValueType::Frame)
    }

    pub fn describe() -> (r: PortDescription)
        ensures
            r.id == Self::spec_id(),
            r.port_type == PortType::Input,
            r.default == Some(Self::spec_default()),
            r.conversions@.len() == 1,
            r.conversions@[0] == (ValueType::Sample, Conversion::SampleToFrame),
    {
        PortDescription::input(Self::id(), "output", PortValue::Frame(Frame::Mono(0))).conversion(
            Conversion::SampleToFrame,
        )
    }
}

/// One audio-sink evaluation step: the frame on the input, scaled by the
/// sink's volume, is appended to the sample's mixed contributions; the
/// module and the graph stay as they were.
pub open spec fn audio_step(
    pre: Audio,
    post: Audio,
    h: InstanceHandle,
    rate: u32,
    io_pre: Io,
    io_post: Io,
    sunk_pre: Seq<Frame>,
    sunk_post: Seq<Frame>,
) -> bool {
    &&& post == pre
    &&& io_post == io_pre
    &&& sunk_post == sunk_pre.push(
        spec_frame(
            io_pre.spec_get_input(h, AudioInput::spec_id(), AudioInput::spec_default()),
            Frame::Mono(0),
        ).spec_scale(pre.volume as int),
    )
}

/// The audio output module: every instance is an audio sink whose frames are
/// mixed into the rack's output.
pub struct Audio {
    /// Fixed-point gain applied to each contributed frame.
    pub volume: i64,
}

impl Audio {
    pub fn new() -> (r: Self)
        ensures
            r.volume == UNIT,
    {
        Self { volume: UNIT }
    }

    pub fn describe() -> (r: ModuleDescription)
        ensures
            r.kind == ModuleKind::Audio,
            r.name@ == "Audio Output"@,
            r.inputs@.len() == 1,
            r.inputs@[0].id == AudioInput::spec_id(),
            r.inputs@[0].default == Some(AudioInput::spec_default()),
            r.inputs@[0].conversions@ == seq![(ValueType::Sample, Conversion::SampleToFrame)],
            r.outputs@.len() == 0,
    {
        let r = ModuleDescription::new(ModuleKind::Audio).name("Audio Output").port(
            AudioInput::describe(),
        );
        proof {
            assert(r.inputs@[0].conversions@ =~= seq![(ValueType::Sample, Conversion::SampleToFrame)]);
        }
        r
    }

    /// One evaluation step: contributes the frame on its input, scaled by
    /// the volume, to the sample's mixed output.
    pub fn process(&mut self, ctx: &mut ProcessContext)
        requires
            old(ctx).io.wf(),
        ensures
            final(ctx).io.wf(),
            final(ctx).sample_rate == old(ctx).sample_rate,
            final(ctx).handle == old(ctx).handle,
            audio_step(
                *old(self),
                *final(self),
                old(ctx).handle,
                old(ctx).sample_rate,
                old(ctx).io,
                final(ctx).io,
                old(ctx).sunk@,
                final(ctx).sunk@,
            ),
    {
        let desc = AudioInput::describe().into_dyn();
        let frame = as_frame(ctx.get_input(&desc), Frame::Mono(0));
        ctx.sink(frame.scale(self.volume));
    }
}

impl Default for Audio {
    fn default() -> (r: Self)
        ensures
            r.volume == UNIT,
    {
        Self::new()
    }
}

} // verus!
