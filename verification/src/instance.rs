#![verifier::loop_isolation(false)]

//! Handles naming live module instances.

use vstd::prelude::*;
use core::marker::PhantomData;
use crate::audio::{audio_step, Audio};
use crate::file::{file_step, File};
use crate::frame::Frame;
use crate::io::{Io, PortHandle};
use crate::keyboard::{keyboard_step, Keyboard};
use crate::module::{ModuleDescriptionDyn, ModuleKind, PortDescriptionDyn};
use crate::noise::{noise_step, Noise};
use crate::ops::{operation_step, Operation};
use crate::oscillator::{osc_step, Oscillator};
use crate::rack::ProcessContext;
use crate::scope::{scope_step, Scope};
use crate::value::{value_step, Value};

verus! {

/// Opaque identifier of one live module instance.  The rack issues a fresh
/// handle for every instance it creates, so two live instances never share
/// one.
#[derive(Clone, Copy, PartialEq, Eq, Structural, Hash, Debug)]
pub struct InstanceHandle {
    pub id: u64,
}

impl InstanceHandle {
    pub fn from_raw(id: u64) -> (r: Self)
        ensures
            r.id == id,
    {
        Self { id }
    }

    pub fn from_typed<M>(typed: &TypedInstanceHandle<M>) -> (r: Self)
        ensures
            r.id == typed.id,
    {
        Self { id: typed.id }
    }

    pub fn as_typed<M>(&self) -> (r: TypedInstanceHandle<M>)
        ensures
            r.id == self.id,
    {
        TypedInstanceHandle::from_untyped(*self)
    }
}

/// A handle tagged with the module kind it refers to.  It carries no extra
/// runtime state; the tag only restricts what call sites may do with it.
pub struct TypedInstanceHandle<M> {
    pub id: u64,
    pub phantom: PhantomData<M>,
}

impl<M> Clone for TypedInstanceHandle<M> {
    fn clone(&self) -> (r: Self)
        ensures
            r.id == self.id,
    {
        Self { id: self.id, phantom: PhantomData }
    }
}

impl<M> Copy for TypedInstanceHandle<M> {

}

impl<M> TypedInstanceHandle<M> {
    pub fn from_untyped(untyped: InstanceHandle) -> (r: Self)
        ensures
            r.id == untyped.id,
    {
        Self { id: untyped.id, phantom: PhantomData }
    }

    pub fn as_untyped(&self) -> (r: InstanceHandle)
        ensures
            r.id == self.id,
    {
        InstanceHandle::from_typed(self)
    }
}


/// The state of one live module, by kind.
pub enum ModuleState {
    Oscillator(Oscillator),
    Audio(Audio),
    Operation(Operation),
    Value(Value),
    Scope(Scope),
    Keyboard(Keyboard),
    File(File),
    Noise(Noise),
}

impl ModuleState {
    /// The kind this state belongs to.
    pub open spec fn kind_of(self) -> ModuleKind {
        match self {
            ModuleState::Oscillator(_) => ModuleKind::Oscillator,
            ModuleState::Audio(_) => ModuleKind::Audio,
            ModuleState::Operation(_) => ModuleKind::Operation,
            ModuleState::Value(_) => ModuleKind::Value,
            ModuleState::Scope(_) => ModuleKind::Scope,
            ModuleState::Keyboard(_) => ModuleKind::Keyboard,
            ModuleState::File(_) => ModuleKind::File,
            ModuleState::Noise(_) => ModuleKind::Noise,
        }
    }

    /// Per-kind state invariant.
    pub open spec fn wf(self) -> bool {
        match self {
            ModuleState::Oscillator(o) => o.wf(),
            ModuleState::Keyboard(k) => k.wf(),
            _ => true,
        }
    }

    /// Fresh state for one module kind.
    pub fn instantiate(kind: ModuleKind) -> (r: ModuleState)
        ensures
            r.wf(),
            r.kind_of() == kind,
    {
        match kind {
            ModuleKind::Oscillator => ModuleState::Oscillator(Oscillator::new()),
            ModuleKind::Audio => ModuleState::Audio(Audio::new()),
            ModuleKind::Operation => ModuleState::Operation(Operation::new()),
            ModuleKind::Value => ModuleState::Value(Value::new()),
            ModuleKind::Scope => ModuleState::Scope(Scope::new()),
            ModuleKind::Keyboard => ModuleState::Keyboard(Keyboard::new()),
            ModuleKind::File => ModuleState::File(File::new()),
            ModuleKind::Noise => ModuleState::Noise(Noise::new()),
        }
    }

    /// One evaluation step of a module of any kind, as a relation: the kind
    /// is kept and the variant's own step relation holds.
    pub open spec fn spec_step(
        pre: ModuleState,
        post: ModuleState,
        h: InstanceHandle,
        rate: u32,
        io_pre: Io,
        io_post: Io,
        sunk_pre: Seq<Frame>,
        sunk_post: Seq<Frame>,
    ) -> bool {
        match (pre, post) {
            (ModuleState::Oscillator(a), ModuleState::Oscillator(b)) => osc_step(
                a, b, h, rate, io_pre, io_post, sunk_pre, sunk_post,
            ),
            (ModuleState::Audio(a), ModuleState::Audio(b)) => audio_step(
                a, b, h, rate, io_pre, io_post, sunk_pre, sunk_post,
            ),
            (ModuleState::Operation(a), ModuleState::Operation(b)) => operation_step(
                a, b, h, rate, io_pre, io_post, sunk_pre, sunk_post,
            ),
            (ModuleState::Value(a), ModuleState::Value(b)) => value_step(
                a, b, h, rate, io_pre, io_post, sunk_pre, sunk_post,
            ),
            (ModuleState::Scope(a), ModuleState::Scope(b)) => scope_step(
                a, b, h, rate, io_pre, io_post, sunk_pre, sunk_post,
            ),
            (ModuleState::Keyboard(a), ModuleState::Keyboard(b)) => keyboard_step(
                a, b, h, rate, io_pre, io_post, sunk_pre, sunk_post,
            ),
            (ModuleState::File(a), ModuleState::File(b)) => file_step(
                a, b, h, rate, io_pre, io_post, sunk_pre, sunk_post,
            ),
            (ModuleState::Noise(a), ModuleState::Noise(b)) => noise_step(
                a, b, h, rate, io_pre, io_post, sunk_pre, sunk_post,
            ),
            _ => false,
        }
    }

    /// One evaluation step of whatever module this is.  The graph invariant
    /// carries through; audio sinks may append to the sample's mixed frames,
    /// no module drops them.
    pub fn process(&mut self, ctx: &mut ProcessContext)
        requires
            old(self).wf(),
            old(ctx).io.wf(),
            old(ctx).sample_rate >= 1,
        ensures
            final(self).wf(),
            final(self).kind_of() == old(self).kind_of(),
            final(ctx).io.wf(),
            final(ctx).sample_rate == old(ctx).sample_rate,
            final(ctx).handle == old(ctx).handle,
            ModuleState::spec_step(
                *old(self),
                *final(self),
                old(ctx).handle,
                old(ctx).sample_rate,
                old(ctx).io,
                final(ctx).io,
                old(ctx).sunk@,
                final(ctx).sunk@,
            ),
    {
        match self {
            ModuleState::Oscillator(o) => o.process(ctx),
            ModuleState::Audio(a) => a.process(ctx),
            ModuleState::Operation(op) => op.process(ctx),
            ModuleState::Value(v) => v.process(ctx),
            ModuleState::Scope(sc) => sc.process(ctx),
            ModuleState::Keyboard(k) => k.process(ctx),
            ModuleState::File(f) => f.process(ctx),
            ModuleState::Noise(n) => n.process(ctx),
        }
    }
}

/// One live port of an instance.
pub struct PortInstance {
    pub description: PortDescriptionDyn,
    pub handle: PortHandle,
}

impl PortInstance {
    pub fn from_description(description: PortDescriptionDyn, instance: InstanceHandle) -> (r:
        Self)
        ensures
            r.handle == (PortHandle { id: description.id, instance }),
            r.description.id == description.id,
            r.description.port_type == description.port_type,
            r.description.default == description.default,
            r.description.name == description.name,
    {
        let handle = PortHandle::new(description.id, instance);
        Self { description, handle }
    }
}

/// One live module instance: its state, its identity and its ports.
pub struct Instance {
    pub module: ModuleState,
    pub handle: InstanceHandle,
    pub name: &'static str,
    pub kind: ModuleKind,
    pub inputs: Vec<PortInstance>,
    pub outputs: Vec<PortInstance>,
}

impl Instance {
    pub open spec fn wf(self) -> bool {
        &&& self.module.wf()
        &&& self.module.kind_of() == self.kind
        &&& forall|i: int|
            0 <= i < self.inputs@.len() ==> (#[trigger] self.inputs@[i]).handle.instance
                == self.handle
        &&& forall|i: int|
            0 <= i < self.outputs@.len() ==> (#[trigger] self.outputs@[i]).handle.instance
                == self.handle
    }

    /// Creates a fresh instance of a described module kind, wiring one live
    /// port per described port.
    pub fn from_description(description: &ModuleDescriptionDyn, handle: InstanceHandle) -> (r:
        Self)
        ensures
            r.wf(),
            r.handle == handle,
            r.kind == description.kind,
            r.name == description.name,
            r.inputs@.len() == description.inputs@.len(),
            forall|i: int|
                0 <= i < r.inputs@.len() ==> (#[trigger] r.inputs@[i]).handle == (PortHandle {
                    id: description.inputs@[i].id,
                    instance: handle,
                }) && r.inputs@[i].description.id == description.inputs@[i].id
                    && r.inputs@[i].description.default == description.inputs@[i].default,
            r.outputs@.len() == description.outputs@.len(),
            forall|i: int|
                0 <= i < r.outputs@.len() ==> (#[trigger] r.outputs@[i]).handle == (PortHandle {
                    id: description.outputs@[i].id,
                    instance: handle,
                }),
    {
        let mut inputs: Vec<PortInstance> = Vec::new();
        let mut i: usize = 0;
        while i < description.inputs.len()
            invariant
                i <= description.inputs@.len(),
                inputs@.len() == i,
                forall|k: int|
                    0 <= k < i ==> (#[trigger] inputs@[k]).handle == (PortHandle {
                        id: description.inputs@[k].id,
                        instance: handle,
                    }) && inputs@[k].description.id == description.inputs@[k].id
                        && inputs@[k].description.default == description.inputs@[k].default,
            decreases description.inputs@.len() - i,
        {
            inputs.push(PortInstance::from_description(
                copy_port_description(&description.inputs[i]),
                handle,
            ));
            i = i + 1;
        }
        let mut outputs: Vec<PortInstance> = Vec::new();
        let mut j: usize = 0;
        while j < description.outputs.len()
            invariant
                j <= description.outputs@.len(),
                outputs@.len() == j,
                forall|k: int|
                    0 <= k < j ==> (#[trigger] outputs@[k]).handle == (PortHandle {
                        id: description.outputs@[k].id,
                        instance: handle,
                    }),
            decreases description.outputs@.len() - j,
        {
            outputs.push(PortInstance::from_description(
                copy_port_description(&description.outputs[j]),
                handle,
            ));
            j = j + 1;
        }
        Self {
            module: ModuleState::instantiate(description.kind),
            handle,
            name: description.name,
            kind: description.kind,
            inputs,
            outputs,
        }
    }

    /// Whether one of the instance's live ports, input or output, carries
    /// the handle.
    pub open spec fn spec_has_port(self, handle: PortHandle) -> bool {
        ||| exists|i: int|
            0 <= i < self.inputs@.len() && (#[trigger] self.inputs@[i]).handle == handle
        ||| exists|i: int|
            0 <= i < self.outputs@.len() && (#[trigger] self.outputs@[i]).handle == handle
    }

    /// Looks a live port up by handle, inputs first: some port exactly when
    /// the instance has one carrying the handle.
    pub fn get_port(&self, handle: PortHandle) -> (r: Option<&PortInstance>)
        ensures
            r is Some <==> self.spec_has_port(handle),
            r is Some ==> r->0.handle == handle && (self.inputs@.contains(*(r->0))
                || self.outputs@.contains(*(r->0))),
    {
        let mut i: usize = 0;
        while i < self.inputs.len()
            invariant
                i <= self.inputs@.len(),
                forall|k: int| 0 <= k < i ==> (#[trigger] self.inputs@[k]).handle != handle,
            decreases self.inputs@.len() - i,
        {
            if port_instance_matches(&self.inputs[i], handle) {
                return Some(&self.inputs[i]);
            }
            i = i + 1;
        }
        let mut j: usize = 0;
        while j < self.outputs.len()
            invariant
                j <= self.outputs@.len(),
                forall|k: int| 0 <= k < self.inputs@.len() ==> (#[trigger] self.inputs@[
                    k
                ]).handle != handle,
                forall|k: int| 0 <= k < j ==> (#[trigger] self.outputs@[k]).handle != handle,
            decreases self.outputs@.len() - j,
        {
            if port_instance_matches(&self.outputs[j], handle) {
                return Some(&self.outputs[j]);
            }
            j = j + 1;
        }
        None
    }
}

/// Whether a live port carries the given handle.
fn port_instance_matches(port: &PortInstance, handle: PortHandle) -> (r: bool)
    ensures
        r <==> port.handle == handle,
{
    port.handle.id.id == handle.id.id && port.handle.id.value_type == handle.id.value_type
        && port.handle.instance.id == handle.instance.id
}

/// Copies a port description.
pub fn copy_port_description(d: &PortDescriptionDyn) -> (r: PortDescriptionDyn)
    ensures
        r.name == d.name,
        r.value_name == d.value_name,
        r.port_type == d.port_type,
        r.id == d.id,
        r.default == d.default,
        r.conversions@ == d.conversions@,
{
    let mut conversions: Vec<(crate::types::ValueType, crate::types::Conversion)> = Vec::new();
    let mut i: usize = 0;
    while i < d.conversions.len()
        invariant
            i <= d.conversions@.len(),
            conversions@ == d.conversions@.take(i as int),
        decreases d.conversions@.len() - i,
    {
        conversions.push(d.conversions[i]);
        i = i + 1;
        proof {
            assert(conversions@ =~= d.conversions@.take(i as int));
        }
    }
    proof {
        assert(d.conversions@.take(d.conversions@.len() as int) =~= d.conversions@);
    }
    PortDescriptionDyn {
        name: d.name,
        value_name: d.value_name,
        port_type: d.port_type,
        id: d.id,
        default: d.default,
        conversions,
    }
}

} // verus!
