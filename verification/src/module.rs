#![verifier::loop_isolation(false)]

//! Static descriptions of module kinds and their ports.

use vstd::prelude::*;
use crate::io::{ConnectResult, ConnectResultErr};
use crate::types::{Conversion, PortValue, ValueType};

verus! {

/// Identifies a port role (say, the frequency input of an oscillator)
/// together with the value type that role carries.
#[derive(Clone, Copy, PartialEq, Eq, Structural, Hash, Debug)]
pub struct PortId {
    /// Distinguishes the role from every other port role in the rack.
    pub id: u64,
    /// The value type the role carries.
    pub value_type: ValueType,
}

impl PortId {
    pub fn new(id: u64, value_type: ValueType) -> (r: Self)
        ensures
            r == (PortId { id, value_type }),
    {
        Self { id, value_type }
    }

    /// Two port roles are value-compatible exactly when their value types
    /// match; conversions are the registry's concern, not the role's.
    pub fn is_compatible(&self, other: Self) -> (r: ConnectResult)
        ensures
            r == if self.value_type == other.value_type {
                ConnectResult::Accept
            } else {
                ConnectResult::Reject(ConnectResultErr::InCompatible)
            },
    {
        if self.value_type == other.value_type {
            ConnectResult::Accept
        } else {
            ConnectResult::Reject(ConnectResultErr::InCompatible)
        }
    }
}

/// Whether a port consumes or produces values.
#[derive(Clone, Copy, PartialEq, Eq, Structural, Debug)]
pub enum PortType {
    Input,
    Output,
}

/// `(from, to, optional target port)` keying one registered adapter; a
/// port-specific entry takes precedence over a type-general one.
#[derive(Clone, Copy, PartialEq, Eq, Structural, Debug)]
pub struct ConversionEntry {
    pub from: ValueType,
    pub to: ValueType,
    /// `Some` restricts the adapter to one destination port role.
    pub target: Option<PortId>,
    pub conv: Conversion,
}

impl ConversionEntry {
    /// An entry is coherent when its adapter maps its `from` type to its
    /// `to` type.
    pub open spec fn wf(self) -> bool {
        self.conv.from_type() == self.from && self.conv.to_type() == self.to
    }
}

/// The closed set of module kinds the rack can instantiate.
#[derive(Clone, Copy, PartialEq, Eq, Structural, Debug)]
pub enum ModuleKind {
    Oscillator,
    Audio,
    Operation,
    Value,
    Scope,
    Keyboard,
    File,
    Noise,
}

/// Static metadata for one port of a module kind.
pub struct PortDescription {
    pub port_type: PortType,
    pub id: PortId,
    pub name: &'static str,
    /// What an unconnected, unedited input reads; inputs only.
    pub default: Option<PortValue>,
    /// Adapters accepted into this port from other value types.
    pub conversions: Vec<(ValueType, Conversion)>,
}

impl PortDescription {
    /// Describes an input port with its declared default value.
    pub fn input(id: PortId, name: &'static str, default: PortValue) -> (r: Self)
        requires
            default.value_type() == id.value_type,
        ensures
            r.port_type == PortType::Input,
            r.id == id,
            r.name == name,
            r.default == Some(default),
            r.conversions@ =~= Seq::<(ValueType, Conversion)>::empty(),
    {
        Self { port_type: PortType::Input, id, name, default: Some(default), conversions: Vec::new() }
    }

    /// Describes an output port.
    pub fn output(id: PortId, name: &'static str) -> (r: Self)
        ensures
            r.port_type == PortType::Output,
            r.id == id,
            r.name == name,
            r.default == None::<PortValue>,
            r.conversions@ =~= Seq::<(ValueType, Conversion)>::empty(),
    {
        Self { port_type: PortType::Output, id, name, default: None, conversions: Vec::new() }
    }

    /// Accepts values of another type into this port through an adapter.
    pub fn conversion(self, conv: Conversion) -> (r: Self)
        requires
            conv.to_type() == self.id.value_type,
        ensures
            r.port_type == self.port_type,
            r.id == self.id,
            r.name == self.name,
            r.default == self.default,
            r.conversions@ == self.conversions@.push((conv.from_type(), conv)),
    {
        let mut s = self;
        let from = match conv {
            Conversion::SampleToFrame => ValueType::Sample,
            Conversion::FrameToSample => ValueType::Frame,
            Conversion::BoolToSample => ValueType::Bool,
        };
        s.conversions.push((from, conv));
        s
    }

    pub fn into_dyn(self) -> (r: PortDescriptionDyn)
        ensures
            r.name == self.name,
            r.port_type == self.port_type,
            r.id == self.id,
            r.default == self.default,
            r.conversions@ == self.conversions@,
    {
        PortDescriptionDyn::from_typed(self)
    }
}

/// The shape of a port as the graph and the editor consume it.
pub struct PortDescriptionDyn {
    pub name: &'static str,
    pub value_name: &'static str,
    pub port_type: PortType,
    pub id: PortId,
    pub default: Option<PortValue>,
    pub conversions: Vec<(ValueType, Conversion)>,
}

impl PortDescriptionDyn {
    pub fn from_typed(description: PortDescription) -> (r: Self)
        ensures
            r.name == description.name,
            r.port_type == description.port_type,
            r.id == description.id,
            r.default == description.default,
            r.conversions@ == description.conversions@,
    {
        Self {
            name: description.name,
            value_name: description.id.value_type.name(),
            port_type: description.port_type,
            id: description.id,
            default: description.default,
            conversions: description.conversions,
        }
    }
}

/// Builder for the static metadata of one module kind: a display name, the
/// kind to instantiate, and its input and output ports.
pub struct ModuleDescription {
    pub name: &'static str,
    pub kind: ModuleKind,
    pub inputs: Vec<PortDescriptionDyn>,
    pub outputs: Vec<PortDescriptionDyn>,
}

impl ModuleDescription {
    pub fn new(kind: ModuleKind) -> (r: Self)
        ensures
            r.name@ == ""@,
            r.kind == kind,
            r.inputs@ =~= Seq::<PortDescriptionDyn>::empty(),
            r.outputs@ =~= Seq::<PortDescriptionDyn>::empty(),
    {
        Self { name: "", kind, inputs: Vec::new(), outputs: Vec::new() }
    }

    /// Sets the display name.
    pub fn name(self, value: &'static str) -> (r: Self)
        ensures
            r.name == value,
            r.kind == self.kind,
            r.inputs@ == self.inputs@,
            r.outputs@ == self.outputs@,
    {
        let mut s = self;
        s.name = value;
        s
    }

    /// Adds a port, routed to the input or output list by its direction.
    pub fn port(self, port: PortDescription) -> (r: Self)
        ensures
            r.name == self.name,
            r.kind == self.kind,
            port.port_type == PortType::Input ==> {
                &&& r.inputs@.len() == self.inputs@.len() + 1
                &&& r.inputs@.last().id == port.id
                &&& r.inputs@.last().default == port.default
                &&& r.inputs@.last().conversions@ == port.conversions@
                &&& r.inputs@.last().port_type == PortType::Input
                &&& r.inputs@.take(self.inputs@.len() as int) == self.inputs@
                &&& r.outputs@ == self.outputs@
            },
            port.port_type == PortType::Output ==> {
                &&& r.outputs@.len() == self.outputs@.len() + 1
                &&& r.outputs@.last().id == port.id
                &&& r.outputs@.last().port_type == PortType::Output
                &&& r.outputs@.take(self.outputs@.len() as int) == self.outputs@
                &&& r.inputs@ == self.inputs@
            },
    {
        let mut s = self;
        let is_input = match port.port_type {
            PortType::Input => true,
            PortType::Output => false,
        };
        let dyn_port = port.into_dyn();
        if is_input {
            s.inputs.push(dyn_port);
            assert(s.inputs@.take(self.inputs@.len() as int) =~= self.inputs@);
        } else {
            s.outputs.push(dyn_port);
            assert(s.outputs@.take(self.outputs@.len() as int) =~= self.outputs@);
        }
        s
    }

    pub fn into_dyn(self) -> (r: ModuleDescriptionDyn)
        ensures
            r.name == self.name,
            r.kind == self.kind,
            r.inputs@ == self.inputs@,
            r.outputs@ == self.outputs@,
    {
        ModuleDescriptionDyn::from_typed(self)
    }
}

/// Module metadata as the rack stores it: everything needed to create an
/// instance and wire its ports.
pub struct ModuleDescriptionDyn {
    pub name: &'static str,
    pub kind: ModuleKind,
    pub inputs: Vec<PortDescriptionDyn>,
    pub outputs: Vec<PortDescriptionDyn>,
}

impl ModuleDescriptionDyn {
    pub fn from_typed(description: ModuleDescription) -> (r: Self)
        ensures
            r.name == description.name,
            r.kind == description.kind,
            r.inputs@ == description.inputs@,
            r.outputs@ == description.outputs@,
    {
        Self {
            name: description.name,
            kind: description.kind,
            inputs: description.inputs,
            outputs: description.outputs,
        }
    }
}

} // verus!
