#![verifier::loop_isolation(false)]

//! A noise source: emits a random scalar within full scale every sample.

use vstd::prelude::*;
use rand::Rng;
use crate::frame::UNIT;
use crate::frame::Frame;
use crate::instance::InstanceHandle;
use crate::io::{Io, PortHandle};
use crate::module::{ModuleDescription, ModuleKind, PortDescription, PortId, PortType};
use crate::rack::ProcessContext;
use crate::types::{PortValue, ValueType};

verus! {

/// The output carrying the noise samples.
pub struct NoiseOutput;

impl NoiseOutput {
    pub open spec fn spec_id() -> PortId {
        PortId { id: 8, value_type: ValueType::Sample }
    }

    pub fn id() -> (r: PortId)
        ensures
            r == Self::spec_id(),
    {
        PortId::new(8, ValueType::Sample)
    }

    pub fn describe() -> (r: PortDescription)
        ensures
            r.id == Self::spec_id(),
            r.port_type == PortType::Output,
    {
        PortDescription::output(Self::id(), "output")
    }
}

/// Relies on rand::Rng::gen_range over the thread-local generator: the
/// sample lies within the requested inclusive range, which is not empty.
#[verifier::external_body]
fn random_sample() -> (r: i64)
    ensures
        -UNIT <= r <= UNIT,
{
    rand::thread_rng().gen_range(-UNIT..=UNIT)
}

/// One noise evaluation step: some scalar within full scale was written on
/// the output; which one is the generator's business, so the relation only
/// bounds it.
pub open spec fn noise_step(
    pre: Noise,
    post: Noise,
    h: InstanceHandle,
    rate: u32,
    io_pre: Io,
    io_post: Io,
    sunk_pre: Seq<Frame>,
    sunk_post: Seq<Frame>,
) -> bool {
    &&& exists|s: i64|
        -UNIT <= s <= UNIT && io_pre.wrote_output(
            io_post,
            PortHandle { id: NoiseOutput::spec_id(), instance: h },
            PortValue::Sample(s),
        )
    &&& sunk_post == sunk_pre
}

/// A white-noise source.
pub struct Noise {
}

impl Noise {
    pub fn new() -> (r: Self) {
        Self {  }
    }

    pub fn describe() -> (r: ModuleDescription)
        ensures
            r.kind == ModuleKind::Noise,
            r.name@ == "Noise"@,
            r.inputs@.len() == 0,
            r.outputs@.len() == 1,
            r.outputs@[0].id == NoiseOutput::spec_id(),
    {
        ModuleDescription::new(ModuleKind::Noise).name("Noise").port(NoiseOutput::describe())
    }

    /// One evaluation step: writes a random scalar within full scale on the
    /// output; every outcome lies between `-UNIT` and `UNIT`.
    pub fn process(&mut self, ctx: &mut ProcessContext)
        requires
            old(ctx).io.wf(),
        ensures
            final(ctx).io.wf(),
            final(ctx).sample_rate == old(ctx).sample_rate,
            final(ctx).handle == old(ctx).handle,
            noise_step(
                *old(self),
                *final(self),
                old(ctx).handle,
                old(ctx).sample_rate,
                old(ctx).io,
                final(ctx).io,
                old(ctx).sunk@,
                final(ctx).sunk@,
            ),
    {
        let s = random_sample();
        ctx.set_output(NoiseOutput::id(), PortValue::Sample(s));
    }
}

impl Default for Noise {
    fn default() -> (r: Self) {
        Self::new()
    }
}

} // verus!
