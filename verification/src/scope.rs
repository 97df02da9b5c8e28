#![verifier::loop_isolation(false)]

//! An oscilloscope module: records a window of its input, then waits an
//! interval before recording the next window.

use vstd::prelude::*;
use crate::frame::Frame;
use crate::instance::InstanceHandle;
use crate::io::Io;
use crate::module::{ModuleDescription, ModuleKind, PortDescription, PortId, PortType};
use crate::rack::ProcessContext;
use crate::types::{as_sample, spec_sample, Conversion, PortValue, ValueType};

verus! {

/// The probe input of a scope.  Frames convert to their one-channel reading,
/// so audio paths can be probed directly.
pub struct ScopeInput;

impl ScopeInput {
    pub open spec fn spec_id() -> PortId {
        PortId { id: 11, value_type: ValueType::Sample }
    }

    pub fn id() -> (r: PortId)
        ensures
            r == Self::spec_id(),
    {
        PortId::new(11, ValueType::Sample)
    }

    pub fn describe() -> (r: PortDescription)
        ensures
            r.id == Self::spec_id(),
            r.port_type == PortType::Input,
            r.default == Some(PortValue::Sample(0)),
            r.conversions@.len() == 1,
            r.conversions@[0] == (ValueType::Frame, Conversion::FrameToSample),
    {
        PortDescription::input(Self::id(), "input", PortValue::Sample(0)).conversion(
            Conversion::FrameToSample,
        )
    }
}

/// Where the scope stands in its record/wait cycle.
#[derive(Clone, Copy, PartialEq, Eq, Structural, Debug)]
pub enum ScopeState {
    /// Recording into the window at this position.
    Updating { pos: usize },
    /// Waiting this many samples since the window filled.
    Waiting { waited: usize },
}

/// One scope evaluation step: while recording, the probed value lands at the
/// current position and the position advances; a full window is trimmed and
/// waited out before recording restarts.  The graph is only read.
pub open spec fn scope_step(
    pre: Scope,
    post: Scope,
    h: InstanceHandle,
    rate: u32,
    io_pre: Io,
    io_post: Io,
    sunk_pre: Seq<Frame>,
    sunk_post: Seq<Frame>,
) -> bool {
    let v = spec_sample(
        io_pre.spec_get_input(h, ScopeInput::spec_id(), PortValue::Sample(0)),
        0,
    );
    &&& io_post == io_pre
    &&& sunk_post == sunk_pre
    &&& post.size == pre.size
    &&& post.interval == pre.interval
    &&& match pre.state {
        ScopeState::Updating { pos } => if pos >= pre.size {
            &&& post.state == (ScopeState::Waiting { waited: 0usize })
            &&& post.buffer@ == if pre.buffer@.len() > pre.size {
                pre.buffer@.take(pre.size as int)
            } else {
                pre.buffer@
            }
        } else {
            &&& post.state == (ScopeState::Updating { pos: (pos + 1) as usize })
            &&& post.buffer@ == if pre.buffer@.len() > pos {
                pre.buffer@.update(pos as int, v as i64)
            } else {
                pre.buffer@.push(v as i64)
            }
        },
        ScopeState::Waiting { waited } => {
            &&& post.buffer@ == pre.buffer@
            &&& post.state == if pre.interval > waited {
                ScopeState::Waiting { waited: (waited + 1) as usize }
            } else {
                ScopeState::Updating { pos: 0usize }
            }
        },
    }
}

/// Records a window of `size` samples, then waits `interval` samples before
/// starting over.
pub struct Scope {
    pub buffer: Vec<i64>,
    pub size: usize,
    pub interval: usize,
    pub state: ScopeState,
}

impl Scope {
    pub fn new() -> (r: Self)
        ensures
            r.buffer@.len() == 0,
            r.size == 10000,
            r.interval == 50000,
            r.state == (ScopeState::Updating { pos: 0usize }),
    {
        Self {
            buffer: Vec::new(),
            size: 10000,
            interval: 50000,
            state: ScopeState::Updating { pos: 0 },
        }
    }

    /// The recorded window, for display.
    pub fn buffer(&self) -> (r: &Vec<i64>)
        ensures
            r@ == self.buffer@,
    {
        &self.buffer
    }

    pub fn describe() -> (r: ModuleDescription)
        ensures
            r.kind == ModuleKind::Scope,
            r.name@ == "Scope"@,
            r.inputs@.len() == 1,
            r.inputs@[0].id == ScopeInput::spec_id(),
            r.inputs@[0].default == Some(PortValue::Sample(0)),
            r.inputs@[0].conversions@ == seq![(ValueType::Frame, Conversion::FrameToSample)],
            r.outputs@.len() == 0,
    {
        let r = ModuleDescription::new(ModuleKind::Scope).name("Scope").port(
            ScopeInput::describe(),
        );
        proof {
            assert(r.inputs@[0].conversions@ =~= seq![(ValueType::Frame, Conversion::FrameToSample)]);
        }
        r
    }

    /// One evaluation step: while recording, stores the probed value at the
    /// current position and advances; when the window is full, trims it and
    /// waits out the interval before recording again.  Reads only; writes no
    /// output.
    pub fn process(&mut self, ctx: &mut ProcessContext)
        requires
            old(ctx).io.wf(),
        ensures
            final(ctx).io.wf(),
            final(ctx).sample_rate == old(ctx).sample_rate,
            final(ctx).handle == old(ctx).handle,
            scope_step(
                *old(self),
                *final(self),
                old(ctx).handle,
                old(ctx).sample_rate,
                old(ctx).io,
                final(ctx).io,
                old(ctx).sunk@,
                final(ctx).sunk@,
            ),
    {
        let desc = ScopeInput::describe().into_dyn();
        let v = as_sample(ctx.get_input(&desc), 0);

        match self.state {
            ScopeState::Updating { pos } => {
                if pos >= self.size {
                    self.state = ScopeState::Waiting { waited: 0 };
                    if self.buffer.len() > self.size {
                        self.buffer.truncate(self.size);
                        proof {
                            assert(self.buffer@ == old(self).buffer@.take(old(self).size as int));
                        }
                    }
                } else {
                    if self.buffer.len() > pos {
                        let slot = &mut self.buffer[pos];
                        *slot = v;
                        proof {
                            assert(self.buffer@ =~= old(self).buffer@.update(pos as int, v));
                        }
                    } else {
                        self.buffer.push(v);
                    }
                    self.state = ScopeState::Updating { pos: pos + 1 };
                }
            },
            ScopeState::Waiting { waited } => {
                if self.interval > waited {
                    self.state = ScopeState::Waiting { waited: waited + 1 };
                } else {
                    self.state = ScopeState::Updating { pos: 0 };
                }
            },
        }
    }
}

impl Default for Scope {
    fn default() -> (r: Self)
        ensures
            r.buffer@.len() == 0,
            r.size == 10000,
            r.interval == 50000,
            r.state == (ScopeState::Updating { pos: 0usize }),
    {
        Self::new()
    }
}

} // verus!
