#![verifier::loop_isolation(false)]

//! A binary arithmetic module over scalar signals.

use vstd::prelude::*;
use crate::frame::{fixed_div, fixed_div_spec, fixed_mul, fixed_mul_spec, sat_add, sat_sub, sat_i64};
use crate::frame::Frame;
use crate::instance::InstanceHandle;
use crate::io::{Io, PortHandle};
use crate::module::{ModuleDescription, ModuleKind, PortDescription, PortId, PortType};
use crate::rack::ProcessContext;
use crate::types::{as_sample, spec_sample, PortValue, ValueType};

verus! {

/// The first operand input.
pub struct InValueA;

impl InValueA {
    pub open spec fn spec_id() -> PortId {
        PortId { id: 4, value_type: ValueType::Sample }
    }

    pub fn id() -> (r: PortId)
        ensures
            r == Self::spec_id(),
    {
        PortId::new(4, ValueType::Sample)
    }

    pub fn describe() -> (r: PortDescription)
        ensures
            r.id == Self::spec_id(),
            r.port_type == PortType::Input,
            r.default == Some(PortValue::Sample(0)),
    {
        PortDescription::input(Self::id(), "a", PortValue::Sample(0))
    }
}

/// The second operand input.
pub struct InValueB;

impl InValueB {
    pub open spec fn spec_id() -> PortId {
        PortId { id: 5, value_type: ValueType::Sample }
    }

    pub fn id() -> (r: PortId)
        ensures
            r == Self::spec_id(),
    {
        PortId::new(5, ValueType::Sample)
    }

    pub fn describe() -> (r: PortDescription)
        ensures
            r.id == Self::spec_id(),
            r.port_type == PortType::Input,
            r.default == Some(PortValue::Sample(0)),
    {
        PortDescription::input(Self::id(), "b", PortValue::Sample(0))
    }
}

/// The result output.
pub struct OutValue;

impl OutValue {
    pub open spec fn spec_id() -> PortId {
        PortId { id: 6, value_type: ValueType::Sample }
    }

    pub fn id() -> (r: PortId)
        ensures
            r == Self::spec_id(),
    {
        PortId::new(6, ValueType::Sample)
    }

    pub fn describe() -> (r: PortDescription)
        ensures
            r.id == Self::spec_id(),
            r.port_type == PortType::Output,
    {
        PortDescription::output(Self::id(), "out")
    }
}

/// The arithmetic an operation module applies.
#[derive(Clone, Copy, PartialEq, Eq, Structural, Debug)]
pub enum Operator {
    Add,
    Sub,
    Mul,
    Div,
}

impl Operator {
    pub fn as_str(&self) -> (r: &'static str)
        ensures
            *self is Add ==> r@ == "Add"@,
            *self is Sub ==> r@ == "Subtract"@,
            *self is Mul ==> r@ == "Multiply"@,
            *self is Div ==> r@ == "Divide"@,
    {
        match self {
            Operator::Add => "Add",
            Operator::Sub => "Subtract",
            Operator::Mul => "Multiply",
            Operator::Div => "Divide",
        }
    }

    /// Every operator, for pickers.
    pub fn all() -> (r: Vec<Operator>)
        ensures
            r@ == seq![Operator::Add, Operator::Sub, Operator::Mul, Operator::Div],
    {
        let mut v: Vec<Operator> = Vec::new();
        v.push(Operator::Add);
        v.push(Operator::Sub);
        v.push(Operator::Mul);
        v.push(Operator::Div);
        proof {
            assert(v@ =~= seq![Operator::Add, Operator::Sub, Operator::Mul, Operator::Div]);
        }
        v
    }
}

/// The fixed-point result of one operator on two scalars: sums and
/// differences saturate, products and quotients round toward zero, and a
/// zero divisor yields zero.
pub open spec fn apply_operator(op: Operator, a: int, b: int) -> int {
    match op {
        Operator::Add => sat_i64(a + b),
        Operator::Sub => sat_i64(a - b),
        Operator::Mul => fixed_mul_spec(a, b),
        Operator::Div => fixed_div_spec(a, b),
    }
}

/// One operation evaluation step: the chosen operator's result over the two
/// scalar inputs is written on the result output; the module itself and the
/// mixed contributions stay as they were.
pub open spec fn operation_step(
    pre: Operation,
    post: Operation,
    h: InstanceHandle,
    rate: u32,
    io_pre: Io,
    io_post: Io,
    sunk_pre: Seq<Frame>,
    sunk_post: Seq<Frame>,
) -> bool {
    let a = spec_sample(
        io_pre.spec_get_input(h, InValueA::spec_id(), PortValue::Sample(0)),
        0,
    );
    let b = spec_sample(
        io_pre.spec_get_input(h, InValueB::spec_id(), PortValue::Sample(0)),
        0,
    );
    &&& post == pre
    &&& io_pre.wrote_output(
        io_post,
        PortHandle { id: OutValue::spec_id(), instance: h },
        PortValue::Sample(apply_operator(pre.operator, a, b) as i64),
    )
    &&& sunk_post == sunk_pre
}

/// A binary arithmetic module: reads its two scalar inputs each sample and
/// writes the chosen operator's result.
pub struct Operation {
    pub operator: Operator,
}

impl Operation {
    pub fn new() -> (r: Self)
        ensures
            r.operator == Operator::Add,
    {
        Self { operator: Operator::Add }
    }

    pub fn describe() -> (r: ModuleDescription)
        ensures
            r.kind == ModuleKind::Operation,
            r.name@ == "Operation"@,
            r.inputs@.len() == 2,
            r.inputs@[0].id == InValueA::spec_id(),
            r.inputs@[1].id == InValueB::spec_id(),
            r.outputs@.len() == 1,
            r.outputs@[0].id == OutValue::spec_id(),
    {
        ModuleDescription::new(ModuleKind::Operation)
            .name("Operation")
            .port(InValueA::describe())
            .port(InValueB::describe())
            .port(OutValue::describe())
    }

    /// One evaluation step: writes `a (op) b` on the result output.
    pub fn process(&mut self, ctx: &mut ProcessContext)
        requires
            old(ctx).io.wf(),
        ensures
            final(ctx).io.wf(),
            final(ctx).sample_rate == old(ctx).sample_rate,
            final(ctx).handle == old(ctx).handle,
            operation_step(
                *old(self),
                *final(self),
                old(ctx).handle,
                old(ctx).sample_rate,
                old(ctx).io,
                final(ctx).io,
                old(ctx).sunk@,
                final(ctx).sunk@,
            ),
    {
        let desc_a = InValueA::describe().into_dyn();
        let desc_b = InValueB::describe().into_dyn();
        let a = as_sample(ctx.get_input(&desc_a), 0);
        let b = as_sample(ctx.get_input(&desc_b), 0);
        let result = match self.operator {
            Operator::Add => sat_add(a, b),
            Operator::Sub => sat_sub(a, b),
            Operator::Mul => fixed_mul(a, b),
            Operator::Div => fixed_div(a, b),
        };
        ctx.set_output(OutValue::id(), PortValue::Sample(result));
    }
}

impl Default for Operation {
    fn default() -> (r: Self)
        ensures
            r.operator == Operator::Add,
    {
        Self::new()
    }
}

} // verus!
