#![verifier::loop_isolation(false)]

//! A constant-value module: emits an editable scalar every sample.

use vstd::prelude::*;
use crate::frame::Frame;
use crate::instance::InstanceHandle;
use crate::io::{Io, PortHandle};
use crate::module::{ModuleDescription, ModuleKind, PortDescription, PortId, PortType};
use crate::rack::ProcessContext;
use crate::types::{PortValue, ValueType};

verus! {

/// The output carrying the held value.
pub struct ValueOutput;

impl ValueOutput {
    pub open spec fn spec_id() -> PortId {
        PortId { id: 7, value_type: ValueType::Sample }
    }

    pub fn id() -> (r: PortId)
        ensures
            r == Self::spec_id(),
    {
        PortId::new(7, ValueType::Sample)
    }

    pub fn describe() -> (r: PortDescription)
        ensures
            r.id == Self::spec_id(),
            r.port_type == PortType::Output,
    {
        PortDescription::output(Self::id(), "output")
    }
}

/// One value-module evaluation step: the held scalar is written on the
/// output; nothing else moves.
pub open spec fn value_step(
    pre: Value,
    post: Value,
    h: InstanceHandle,
    rate: u32,
    io_pre: Io,
    io_post: Io,
    sunk_pre: Seq<Frame>,
    sunk_post: Seq<Frame>,
) -> bool {
    &&& post == pre
    &&& io_pre.wrote_output(
        io_post,
        PortHandle { id: ValueOutput::spec_id(), instance: h },
        PortValue::Sample(pre.value),
    )
    &&& sunk_post == sunk_pre
}

/// Holds one scalar, edited by the controller, and emits it every sample.
pub struct Value {
    pub value: i64,
}

impl Value {
    pub fn new() -> (r: Self)
        ensures
            r.value == 0,
    {
        Self { value: 0 }
    }

    /// Sets the held scalar.
    pub fn set_value(&mut self, value: i64)
        ensures
            final(self).value == value,
    {
        self.value = value;
    }

    pub fn describe() -> (r: ModuleDescription)
        ensures
            r.kind == ModuleKind::Value,
            r.name@ == "Value"@,
            r.inputs@.len() == 0,
            r.outputs@.len() == 1,
            r.outputs@[0].id == ValueOutput::spec_id(),
    {
        ModuleDescription::new(ModuleKind::Value).name("Value").port(ValueOutput::describe())
    }

    /// One evaluation step: writes the held scalar on the output.
    pub fn process(&mut self, ctx: &mut ProcessContext)
        requires
            old(ctx).io.wf(),
        ensures
            final(ctx).io.wf(),
            final(ctx).sample_rate == old(ctx).sample_rate,
            final(ctx).handle == old(ctx).handle,
            value_step(
                *old(self),
                *final(self),
                old(ctx).handle,
                old(ctx).sample_rate,
                old(ctx).io,
                final(ctx).io,
                old(ctx).sunk@,
                final(ctx).sunk@,
            ),
    {
        ctx.set_output(ValueOutput::id(), PortValue::Sample(self.value));
    }
}

impl Default for Value {
    fn default() -> (r: Self)
        ensures
            r.value == 0,
    {
        Self::new()
    }
}

} // verus!
