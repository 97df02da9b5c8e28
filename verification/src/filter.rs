#![verifier::loop_isolation(false)]

//! Port descriptors of the filter module.  The filter's own signal path runs
//! through floating-point biquad coefficients, which the verified core does
//! not hold; a host process owns that state and wires it through these
//! ports.

use vstd::prelude::*;
use crate::frame::Frame;
use crate::module::{PortDescription, PortId, PortType};
use crate::types::{PortValue, ValueType};

verus! {

/// The frame input of a filter.
pub struct FilterInput;

impl FilterInput {
    pub open spec fn spec_id() -> PortId {
        PortId { id: 13, value_type: ValueType::Frame }
    }

    pub fn id() -> (r: PortId)
        ensures
            r == Self::spec_id(),
    {
        PortId::new(13, ValueType::Frame)
    }

    pub fn describe() -> (r: PortDescription)
        ensures
            r.id == Self::spec_id(),
            r.port_type == PortType::Input,
            r.default == Some(PortValue::Frame(Frame::Mono(0))),
    {
        PortDescription::input(Self::id(), "input", PortValue::Frame(Frame::Mono(0)))
    }
}

/// The frame output of a filter.
pub struct FilterOutput;

impl FilterOutput {
    pub open spec fn spec_id() -> PortId {
        PortId { id: 14, value_type: ValueType::Frame }
    }

    pub fn id() -> (r: PortId)
        ensures
            r == Self::spec_id(),
    {
        PortId::new(14, ValueType::Frame)
    }

    pub fn describe() -> (r: PortDescription)
        ensures
            r.id == Self::spec_id(),
            r.port_type == PortType::Output,
    {
        PortDescription::output(Self::id(), "output")
    }
}

/// The filter shapes a host can run on the filter ports.
#[derive(Clone, Copy, PartialEq, Eq, Structural, Debug)]
pub enum FilterType {
    LowPass,
    HighPass,
}

impl FilterType {
    pub fn as_str(&self) -> (r: &'static str)
        ensures
            *self is LowPass ==> r@ == "lowpass"@,
            *self is HighPass ==> r@ == "highpass"@,
    {
        match self {
            FilterType::LowPass => "lowpass",
            FilterType::HighPass => "highpass",
        }
    }

    /// Every shape, for pickers.
    pub fn all() -> (r: Vec<FilterType>)
        ensures
            r@ == seq![FilterType::LowPass, FilterType::HighPass],
    {
        let mut v: Vec<FilterType> = Vec::new();
        v.push(FilterType::LowPass);
        v.push(FilterType::HighPass);
        proof {
            assert(v@ =~= seq![FilterType::LowPass, FilterType::HighPass]);
        }
        v
    }
}

} // verus!
