#![verifier::loop_isolation(false)]

//! The closed value model: every value that flows through a port, the tag
//! naming its type, and the adapter functions that let ports of different
//! value types connect.

use vstd::prelude::*;
use crate::frame::{Frame, UNIT};

verus! {

/// The concrete type a port value carries.
#[derive(Clone, Copy, PartialEq, Eq, Structural, Hash, Debug)]
pub enum ValueType {
    /// A fixed-point scalar.
    Sample,
    /// A boolean, as from a key press.
    Bool,
    /// An audio frame.
    Frame,
}

impl ValueType {
    pub fn name(&self) -> (r: &'static str)
        ensures
            *self is Sample ==> r@ == "sample"@,
            *self is Bool ==> r@ == "bool"@,
            *self is Frame ==> r@ == "frame"@,
    {
        match self {
            ValueType::Sample => "sample",
            ValueType::Bool => "bool",
            ValueType::Frame => "frame",
        }
    }
}

/// A value staged at an input or written to an output.
#[derive(Clone, Copy, PartialEq, Eq, Structural, Debug)]
pub enum PortValue {
    Sample(i64),
    Bool(bool),
    Frame(Frame),
}

impl PortValue {
    /// The tag of the concrete type this value carries.
    pub open spec fn value_type(self) -> ValueType {
        match self {
            PortValue::Sample(_) => ValueType::Sample,
            PortValue::Bool(_) => ValueType::Bool,
            PortValue::Frame(_) => ValueType::Frame,
        }
    }

    pub fn get_type(&self) -> (r: ValueType)
        ensures
            r == self.value_type(),
    {
        match self {
            PortValue::Sample(_) => ValueType::Sample,
            PortValue::Bool(_) => ValueType::Bool,
            PortValue::Frame(_) => ValueType::Frame,
        }
    }

    /// Scalar preview of the value, for meters and port lamps.
    pub open spec fn spec_as_value(self) -> int {
        match self {
            PortValue::Sample(s) => s as int,
            PortValue::Bool(b) => if b {
                UNIT as int
            } else {
                0
            },
            PortValue::Frame(f) => f.spec_as_mono(),
        }
    }

    pub fn as_value(&self) -> (r: i64)
        ensures
            r == self.spec_as_value(),
    {
        match self {
            PortValue::Sample(s) => *s,
            PortValue::Bool(b) => if *b {
                UNIT
            } else {
                0
            },
            PortValue::Frame(f) => f.as_mono(),
        }
    }
}

/// The scalar a port value carries, or a fallback for a foreign type.
pub open spec fn spec_sample(v: PortValue, d: int) -> int {
    match v {
        PortValue::Sample(s) => s as int,
        _ => d,
    }
}

/// Reads a port value as a scalar, falling back on `d`.
pub fn as_sample(v: PortValue, d: i64) -> (r: i64)
    ensures
        r == spec_sample(v, d as int),
{
    match v {
        PortValue::Sample(s) => s,
        _ => d,
    }
}

/// The frame a port value carries, or a fallback for a foreign type.
pub open spec fn spec_frame(v: PortValue, d: Frame) -> Frame {
    match v {
        PortValue::Frame(f) => f,
        _ => d,
    }
}

/// Reads a port value as a frame, falling back on `d`.
pub fn as_frame(v: PortValue, d: Frame) -> (r: Frame)
    ensures
        r == spec_frame(v, d),
{
    match v {
        PortValue::Frame(f) => f,
        _ => d,
    }
}

/// A registered pure adapter from one value type to another.
#[derive(Clone, Copy, PartialEq, Eq, Structural, Debug)]
pub enum Conversion {
    /// A scalar becomes a mono frame.
    SampleToFrame,
    /// A frame collapses to its one-channel reading.
    FrameToSample,
    /// A boolean becomes full scale or silence.
    BoolToSample,
}

impl Conversion {
    /// The value type this adapter accepts.
    pub open spec fn from_type(self) -> ValueType {
        match self {
            Conversion::SampleToFrame => ValueType::Sample,
            Conversion::FrameToSample => ValueType::Frame,
            Conversion::BoolToSample => ValueType::Bool,
        }
    }

    /// The value type this adapter produces.
    pub open spec fn to_type(self) -> ValueType {
        match self {
            Conversion::SampleToFrame => ValueType::Frame,
            Conversion::FrameToSample => ValueType::Sample,
            Conversion::BoolToSample => ValueType::Sample,
        }
    }

    /// What the adapter returns on a value of its accepted type; a value of
    /// any other type passes through unchanged.
    pub open spec fn spec_apply(self, v: PortValue) -> PortValue {
        match (self, v) {
            (Conversion::SampleToFrame, PortValue::Sample(s)) => PortValue::Frame(Frame::Mono(s)),
            (Conversion::FrameToSample, PortValue::Frame(f)) => PortValue::Sample(
                f.spec_as_mono() as i64,
            ),
            (Conversion::BoolToSample, PortValue::Bool(b)) => PortValue::Sample(
                if b {
                    UNIT as i64
                } else {
                    0
                },
            ),
            _ => v,
        }
    }

    /// Adapts a staged value to the type a port declares.
    pub fn apply(&self, v: PortValue) -> (r: PortValue)
        ensures
            r == self.spec_apply(v),
            v.value_type() == self.from_type() ==> r.value_type() == self.to_type(),
    {
        match (self, v) {
            (Conversion::SampleToFrame, PortValue::Sample(s)) => PortValue::Frame(Frame::Mono(s)),
            (Conversion::FrameToSample, PortValue::Frame(f)) => PortValue::Sample(f.as_mono()),
            (Conversion::BoolToSample, PortValue::Bool(b)) => PortValue::Sample(
                if b {
                    UNIT
                } else {
                    0
                },
            ),
            (_, other) => other,
        }
    }
}

} // verus!
