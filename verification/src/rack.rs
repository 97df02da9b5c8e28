#![verifier::loop_isolation(false)]

//! The rack: holds the live instances, drives their evaluation in the cached
//! processing order, and owns the connection graph.

use vstd::prelude::*;
use crate::audio::Audio;
use crate::file::File;
use crate::frame::Frame;
use crate::instance::{Instance, InstanceHandle, ModuleState};
use crate::io::{ConnectResult, Io, PortHandle, dep_pairs_of, edges_drop};
use crate::keyboard::Keyboard;
use crate::module::{ConversionEntry, ModuleDescriptionDyn, ModuleKind, PortDescriptionDyn, PortId};
use crate::noise::Noise;
use crate::ops::Operation;
use crate::oscillator::Oscillator;
use crate::scope::Scope;
use crate::topo::dag;
use crate::types::{Conversion, PortValue, ValueType};
use crate::value::Value;

verus! {

/// The narrow capability handed to a module during evaluation: it may read
/// its own declared inputs and write its own declared outputs, and nothing
/// else of the graph.
pub struct ProcessContext {
    /// Samples per second the rack is evaluated at.
    pub sample_rate: u32,
    /// The instance being evaluated; reads and writes are rooted at it.
    pub handle: InstanceHandle,
    /// The connection graph, carried through the evaluation.
    pub io: Io,
    /// Frames contributed by audio sinks during the current sample.
    pub sunk: Vec<Frame>,
}

impl ProcessContext {
    pub fn sample_rate(&self) -> (r: u32)
        ensures
            r == self.sample_rate,
    {
        self.sample_rate
    }

    /// Reads one of the instance's declared inputs.
    pub fn get_input(&self, role: &PortDescriptionDyn) -> (r: PortValue)
        requires
            role.default is Some,
        ensures
            r == self.io.spec_get_input(self.handle, role.id, role.default->0),
    {
        self.io.get_input(self.handle, role)
    }

    /// Writes one of the instance's declared outputs, propagating the value
    /// synchronously to every connected input.
    pub fn set_output(&mut self, id: PortId, value: PortValue)
        requires
            old(self).io.wf(),
        ensures
            final(self).io.wf(),
            old(self).io.wrote_output(
                final(self).io,
                PortHandle { id, instance: old(self).handle },
                value,
            ),
            final(self).sample_rate == old(self).sample_rate,
            final(self).handle == old(self).handle,
            final(self).sunk@ == old(self).sunk@,
    {
        let port = PortHandle::new(id, self.handle);
        self.io.set_output_dyn(port, value);
    }

    /// Contributes one frame to the mixed audio output of this sample.
    pub fn sink(&mut self, frame: Frame)
        ensures
            final(self).sunk@ == old(self).sunk@.push(frame),
            final(self).io == old(self).io,
            final(self).sample_rate == old(self).sample_rate,
            final(self).handle == old(self).handle,
    {
        self.sunk.push(frame);
    }
}


/// The instance handles with one handle dropped.
pub open spec fn handles_drop(s: Seq<InstanceHandle>, h: InstanceHandle) -> Seq<InstanceHandle>
    decreases s.len(),
{
    if s.len() == 0 {
        s
    } else if s.last() == h {
        handles_drop(s.drop_last(), h)
    } else {
        handles_drop(s.drop_last(), h).push(s.last())
    }
}

/// Dropping a handle keeps exactly the others.
pub proof fn lemma_handles_drop_contains(s: Seq<InstanceHandle>, h: InstanceHandle, q: InstanceHandle)
    ensures
        handles_drop(s, h).contains(q) <==> (s.contains(q) && q != h),
    decreases s.len(),
{
    let w = handles_drop(s, h);
    if s.len() == 0 {
    } else {
        lemma_handles_drop_contains(s.drop_last(), h, q);
        let w0 = handles_drop(s.drop_last(), h);
        if s.last() == h {
            if s.contains(q) && q != h {
                let i = choose|i: int| 0 <= i < s.len() && s[i] == q;
                assert(s.drop_last()[i] == q);
                assert(s.drop_last().contains(q));
            }
        } else {
            assert(w == w0.push(s.last()));
            if w.contains(q) {
                let i = choose|i: int| 0 <= i < w.len() && w[i] == q;
                if i < w0.len() {
                    assert(w0.contains(q));
                    let j = choose|j: int| 0 <= j < s.drop_last().len() && s.drop_last()[j] == q;
                    assert(s[j] == q);
                } else {
                    assert(q == s.last());
                    assert(s[s.len() - 1] == q);
                }
                assert(s.contains(q));
            }
            if s.contains(q) && q != h {
                if q == s.last() {
                    assert(w[w0.len() as int] == q);
                } else {
                    let i = choose|i: int| 0 <= i < s.len() && s[i] == q;
                    assert(i < s.len() - 1);
                    assert(s.drop_last()[i] == q);
                    assert(s.drop_last().contains(q));
                    assert(w0.contains(q));
                    let j = choose|j: int| 0 <= j < w0.len() && w0[j] == q;
                    assert(w[j] == q);
                }
                assert(w.contains(q));
            }
        }
    }
}

/// One column of the editor, grouping instances.
pub struct Panel {
    pub instances: Vec<InstanceHandle>,
}

impl Panel {
    pub fn new() -> (r: Self)
        ensures
            r.instances@.len() == 0,
    {
        Self { instances: Vec::new() }
    }

    pub fn add_instance(&mut self, handle: InstanceHandle)
        ensures
            final(self).instances@ == old(self).instances@.push(handle),
    {
        self.instances.push(handle);
    }

    pub fn remove_instance(&mut self, handle: InstanceHandle)
        ensures
            forall|q: InstanceHandle|
                final(self).instances@.contains(q) <==> (old(self).instances@.contains(q) && q
                    != handle),
    {
        let ghost orig = self.instances@;
        let mut kept: Vec<InstanceHandle> = Vec::new();
        let mut i: usize = 0;
        while i < self.instances.len()
            invariant
                i <= orig.len(),
                self.instances@ == orig,
                kept@ == handles_drop(orig.take(i as int), handle),
            decreases orig.len() - i,
        {
            let h = self.instances[i];
            proof {
                assert(orig.take(i + 1).drop_last() =~= orig.take(i as int));
                assert(orig.take(i + 1).last() == orig[i as int]);
            }
            if h.id != handle.id {
                kept.push(h);
            }
            i = i + 1;
        }
        proof {
            assert(orig.take(orig.len() as int) =~= orig);
        }
        self.instances = kept;
        proof {
            assert(orig == old(self).instances@);
            assert(self.instances@ == handles_drop(orig, handle));
            assert forall|q: InstanceHandle|
                final(self).instances@.contains(q) <==> (old(self).instances@.contains(q) && q
                    != handle) by {
                lemma_handles_drop_contains(orig, handle, q);
                assert(final(self).instances@ == handles_drop(orig, handle));
            }
        }
    }
}

/// Whether some live instance carries the handle.
pub open spec fn is_live(instances: Seq<Instance>, h: InstanceHandle) -> bool {
    exists|i: int| 0 <= i < instances.len() && (#[trigger] instances[i]).handle == h
}

/// The index of the live instance carrying the handle (meaningful when
/// handles are unique and the handle is live).
pub open spec fn live_index(instances: Seq<Instance>, h: InstanceHandle) -> int {
    choose|i: int| 0 <= i < instances.len() && (#[trigger] instances[i]).handle == h
}

/// One evaluation step of the instance carrying `h`: that instance's module
/// steps by its own relation, every other instance and field is untouched; a
/// handle no live instance carries steps nothing.
pub open spec fn instance_step(
    h: InstanceHandle,
    rate: u32,
    pre_instances: Seq<Instance>,
    post_instances: Seq<Instance>,
    pre_io: Io,
    post_io: Io,
    pre_sunk: Seq<Frame>,
    post_sunk: Seq<Frame>,
) -> bool {
    if is_live(pre_instances, h) {
        let i = live_index(pre_instances, h);
        &&& post_instances.len() == pre_instances.len()
        &&& forall|j: int|
            0 <= j < pre_instances.len() && j != i ==> post_instances[j] == pre_instances[j]
        &&& post_instances[i] == (Instance {
            module: post_instances[i].module,
            ..pre_instances[i]
        })
        &&& ModuleState::spec_step(
            pre_instances[i].module,
            post_instances[i].module,
            h,
            rate,
            pre_io,
            post_io,
            pre_sunk,
            post_sunk,
        )
    } else {
        &&& post_instances == pre_instances
        &&& post_io == pre_io
        &&& post_sunk == pre_sunk
    }
}

/// The instances of `order`, stepped in order: the chain of single steps
/// from the pre state to the post state.
pub open spec fn eval_chain(
    order: Seq<InstanceHandle>,
    rate: u32,
    pre_instances: Seq<Instance>,
    post_instances: Seq<Instance>,
    pre_io: Io,
    post_io: Io,
    pre_sunk: Seq<Frame>,
    post_sunk: Seq<Frame>,
) -> bool
    decreases order.len(),
{
    if order.len() == 0 {
        &&& post_instances == pre_instances
        &&& post_io == pre_io
        &&& post_sunk == pre_sunk
    } else {
        exists|mid_instances: Seq<Instance>, mid_io: Io, mid_sunk: Seq<Frame>|
            eval_chain(
                order.drop_last(),
                rate,
                pre_instances,
                mid_instances,
                pre_io,
                mid_io,
                pre_sunk,
                mid_sunk,
            ) && instance_step(
                order.last(),
                rate,
                mid_instances,
                post_instances,
                mid_io,
                post_io,
                mid_sunk,
                post_sunk,
            )
    }
}

/// `n` whole samples of evaluation: each sample walks `order` once starting
/// from no contributions, and its row collects exactly the frames the audio
/// sinks contributed during that sample.
pub open spec fn eval_samples(
    n: nat,
    order: Seq<InstanceHandle>,
    rate: u32,
    pre_instances: Seq<Instance>,
    post_instances: Seq<Instance>,
    pre_io: Io,
    post_io: Io,
    rows: Seq<Seq<Frame>>,
) -> bool
    decreases n,
{
    if n == 0 {
        &&& rows.len() == 0
        &&& post_instances == pre_instances
        &&& post_io == pre_io
    } else {
        &&& rows.len() == n
        &&& exists|mid_instances: Seq<Instance>, mid_io: Io|
            eval_samples(
                (n - 1) as nat,
                order,
                rate,
                pre_instances,
                mid_instances,
                pre_io,
                mid_io,
                rows.drop_last(),
            ) && eval_chain(
                order,
                rate,
                mid_instances,
                post_instances,
                mid_io,
                post_io,
                Seq::empty(),
                rows.last(),
            )
    }
}

/// The cached order, flattened pass by pass into one sequence of handles.
pub open spec fn flat_order(passes: Seq<Vec<InstanceHandle>>) -> Seq<InstanceHandle>
    decreases passes.len(),
{
    if passes.len() == 0 {
        Seq::empty()
    } else {
        flat_order(passes.drop_last()) + passes.last()@
    }
}

/// Holds, creates and removes module instances and their connections, and
/// drives their evaluation.
pub struct Rack {
    /// The live instances; handles are unique and issued by this rack.
    pub instances: Vec<Instance>,
    /// Editor columns grouping the instances.
    pub panels: Vec<Panel>,
    /// The registered module kinds.
    pub modules: Vec<ModuleDescriptionDyn>,
    /// The registered value types.
    pub types: Vec<ValueType>,
    /// The connection graph.
    pub io: Io,
    /// The next instance identifier to issue; every live handle is below it.
    pub next_id: u64,
}

impl Rack {
    pub open spec fn has_instance(self, h: InstanceHandle) -> bool {
        exists|i: int| 0 <= i < self.instances@.len() && (#[trigger] self.instances@[i]).handle == h
    }

    pub open spec fn wf(self) -> bool {
        &&& self.io.wf()
        &&& forall|i: int| 0 <= i < self.instances@.len() ==> (#[trigger] self.instances@[i]).wf()
        &&& forall|i: int, j: int|
            0 <= i < j < self.instances@.len() ==> (#[trigger] self.instances@[i]).handle != (
            #[trigger] self.instances@[j]).handle
        &&& forall|i: int|
            0 <= i < self.instances@.len() ==> (#[trigger] self.instances@[i]).handle.id
                < self.next_id
    }

    /// An empty rack with the built-in module kinds and value types
    /// registered, including the adapters that let scalars feed the audio
    /// sink and frames feed the scope.
    pub fn new() -> (r: Self)
        ensures
            r.wf(),
            r.instances@.len() == 0,
            r.panels@.len() == 0,
            r.next_id == 0,
            r.types@ == seq![ValueType::Sample, ValueType::Bool, ValueType::Frame],
            r.modules@.len() == 8,
            r.modules@[0].kind == ModuleKind::Oscillator,
            r.modules@[1].kind == ModuleKind::Audio,
            r.modules@[2].kind == ModuleKind::Operation,
            r.modules@[3].kind == ModuleKind::Value,
            r.modules@[4].kind == ModuleKind::Scope,
            r.modules@[5].kind == ModuleKind::Keyboard,
            r.modules@[6].kind == ModuleKind::File,
            r.modules@[7].kind == ModuleKind::Noise,
            r.io.edges().len() == 0,
            r.io.spec_find_conversion(
                ValueType::Sample,
                ValueType::Frame,
                crate::audio::AudioInput::spec_id(),
            ) == Some(Conversion::SampleToFrame),
            r.io.spec_find_conversion(
                ValueType::Frame,
                ValueType::Sample,
                crate::scope::ScopeInput::spec_id(),
            ) == Some(Conversion::FrameToSample),
    {
        let mut io = Io::new();
        io.add_conversion(
            ConversionEntry {
                from: ValueType::Sample,
                to: ValueType::Frame,
                target: Some(crate::audio::AudioInput::id()),
                conv: Conversion::SampleToFrame,
            },
        );
        io.add_conversion(
            ConversionEntry {
                from: ValueType::Frame,
                to: ValueType::Sample,
                target: Some(crate::scope::ScopeInput::id()),
                conv: Conversion::FrameToSample,
            },
        );

        let mut types: Vec<ValueType> = Vec::new();
        types.push(ValueType::Sample);
        types.push(ValueType::Bool);
        types.push(ValueType::Frame);
        proof {
            assert(types@ =~= seq![ValueType::Sample, ValueType::Bool, ValueType::Frame]);
        }

        let mut modules: Vec<ModuleDescriptionDyn> = Vec::new();
        modules.push(Oscillator::describe().into_dyn());
        modules.push(Audio::describe().into_dyn());
        modules.push(Operation::describe().into_dyn());
        modules.push(Value::describe().into_dyn());
        modules.push(Scope::describe().into_dyn());
        modules.push(Keyboard::describe().into_dyn());
        modules.push(File::describe().into_dyn());
        modules.push(Noise::describe().into_dyn());

        proof {
            let e1 = ConversionEntry {
                from: ValueType::Sample,
                to: ValueType::Frame,
                target: Some(crate::audio::AudioInput::spec_id()),
                conv: Conversion::SampleToFrame,
            };
            let e2 = ConversionEntry {
                from: ValueType::Frame,
                to: ValueType::Sample,
                target: Some(crate::scope::ScopeInput::spec_id()),
                conv: Conversion::FrameToSample,
            };
            let cs = io.conversions_view();
            assert(cs =~= Seq::<ConversionEntry>::empty().push(e1).push(e2));
            assert(cs.last() == e2);
            assert(cs.drop_last() =~= Seq::<ConversionEntry>::empty().push(e1));
            assert(cs.drop_last().last() == e1);
            assert(cs.drop_last().drop_last() =~= Seq::<ConversionEntry>::empty());
            assert(crate::io::conv_lookup(
                cs.drop_last(),
                ValueType::Sample,
                ValueType::Frame,
                Some(crate::audio::AudioInput::spec_id()),
            ) == Some(Conversion::SampleToFrame));
        }
        Self {
            instances: Vec::new(),
            panels: Vec::new(),
            modules,
            types,
            io,
            next_id: 0,
        }
    }

    pub fn add_panel(&mut self)
        ensures
            final(self).panels@.len() == old(self).panels@.len() + 1,
            final(self).instances@ == old(self).instances@,
            final(self).io == old(self).io,
            final(self).next_id == old(self).next_id,
    {
        self.panels.push(Panel::new());
    }

    /// Creates a fresh instance of a described module kind in one panel and
    /// returns its new, unique handle.
    pub fn add_module(&mut self, description: &ModuleDescriptionDyn, panel: usize) -> (r:
        InstanceHandle)
        requires
            old(self).wf(),
            panel < old(self).panels@.len(),
            old(self).next_id < u64::MAX,
        ensures
            final(self).wf(),
            r.id == old(self).next_id,
            !old(self).has_instance(r),
            final(self).has_instance(r),
            final(self).io == old(self).io,
            final(self).next_id == old(self).next_id + 1,
            final(self).instances@.len() == old(self).instances@.len() + 1,
            final(self).instances@.last().handle == r,
            final(self).instances@.last().kind == description.kind,
            final(self).instances@.take(old(self).instances@.len() as int) == old(self).instances@,
            forall|h: InstanceHandle|
                final(self).has_instance(h) <==> (old(self).has_instance(h) || h == r),
    {
        let handle = InstanceHandle::from_raw(self.next_id);
        self.next_id = self.next_id + 1;
        let instance = Instance::from_description(description, handle);
        let ghost old_instances = self.instances@;
        self.instances.push(instance);
        let pan = &mut self.panels[panel];
        pan.add_instance(handle);
        proof {
            assert(final(self).instances@.take(old_instances.len() as int) =~= old_instances);
            if old(self).has_instance(handle) {
                let i = choose|i: int|
                    0 <= i < old_instances.len() && (#[trigger] old_instances[i]).handle == handle;
            }
            assert(final(self).instances@.last().handle == handle);
            assert forall|h: InstanceHandle|
                final(self).has_instance(h) <==> (old(self).has_instance(h) || h == handle) by {
                if final(self).has_instance(h) {
                    let i = choose|i: int|
                        0 <= i < final(self).instances@.len()
                            && (#[trigger] final(self).instances@[i]).handle == h;
                    if i < old_instances.len() {
                        assert(old_instances[i].handle == h);
                    }
                }
                if old(self).has_instance(h) {
                    let i = choose|i: int|
                        0 <= i < old_instances.len() && (#[trigger] old_instances[i]).handle == h;
                    assert(final(self).instances@[i].handle == h);
                }
            }
        }
        handle
    }

    /// Removes an instance: scrubs every edge touching it from the graph,
    /// takes it out of its panel and drops its state.
    pub fn remove_instance(&mut self, handle: InstanceHandle)
        requires
            old(self).wf(),
        ensures
            final(self).wf(),
            forall|h: InstanceHandle|
                final(self).has_instance(h) <==> (old(self).has_instance(h) && h != handle),
            // the surviving instances keep their whole stored state
            forall|inst: Instance|
                final(self).instances@.contains(inst) <==> (old(self).instances@.contains(inst)
                    && inst.handle != handle),
            // the handle is gone from every panel, and nothing else is
            final(self).panels@.len() == old(self).panels@.len(),
            forall|p: int, q: InstanceHandle|
                0 <= p < final(self).panels@.len() ==> ((#[trigger] final(self).panels@[p].instances@.contains(q)) <==> (old(self).panels@[p].instances@.contains(q) && q != handle)),
            final(self).next_id == old(self).next_id,
            final(self).modules@ == old(self).modules@,
            final(self).types@ == old(self).types@,
            final(self).io.conversions_view() == old(self).io.conversions_view(),
            forall|f2: PortHandle, t2: PortHandle|
                final(self).io.connected(f2, t2) <==> (old(self).io.connected(f2, t2)
                    && f2.instance != handle && t2.instance != handle),
            forall|q: PortHandle|
                final(self).io.staged(q) == if old(self).io.source_of(q) is Some && (old(self).io.source_of(q)->0.instance == handle || q.instance == handle) {
                    None::<PortValue>
                } else {
                    old(self).io.staged(q)
                },
    {
        self.io.remove_instance(handle);
        let ghost io_after = self.io;

        let mut p: usize = 0;
        while p < self.panels.len()
            invariant
                p <= self.panels@.len(),
                self.panels@.len() == old(self).panels@.len(),
                forall|a: int|
                    p <= a < self.panels@.len() ==> #[trigger] self.panels@[a] == old(self).panels@[a],
                forall|a: int, q: InstanceHandle|
                    0 <= a < p ==> ((#[trigger] self.panels@[a].instances@.contains(q)) <==> (old(self).panels@[a].instances@.contains(q) && q != handle)),
                self.instances@ == old(self).instances@,
                self.io == io_after,
                self.next_id == old(self).next_id,
                self.modules@ == old(self).modules@,
                self.types@ == old(self).types@,
            decreases self.panels@.len() - p,
        {
            let pan = &mut self.panels[p];
            pan.remove_instance(handle);
            p = p + 1;
        }

        // drop the instance record itself; handles are unique, so at most
        // one index matches
        let ghost orig = self.instances@;
        let mut idx: usize = 0;
        let mut found = false;
        let mut i: usize = 0;
        while i < self.instances.len()
            invariant
                i <= orig.len(),
                self.instances@ == orig,
                self.io == io_after,
                self.next_id == old(self).next_id,
                !found ==> forall|j: int| 0 <= j < i ==> (#[trigger] orig[j]).handle != handle,
                found ==> idx < i && orig[idx as int].handle == handle,
            decreases orig.len() - i,
        {
            if !found && self.instances[i].handle.id == handle.id {
                idx = i;
                found = true;
            }
            i = i + 1;
        }
        if found {
            self.instances.remove(idx);
            proof {
                let newi = self.instances@;
                assert(newi == orig.remove(idx as int));
                assert forall|h2: InstanceHandle|
                    self.has_instance(h2) <==> (old(self).has_instance(h2) && h2 != handle)
                    by {
                    if self.has_instance(h2) {
                        let k = choose|k: int|
                            0 <= k < newi.len() && (#[trigger] newi[k]).handle == h2;
                        if k < idx {
                            assert(orig[k].handle == h2);
                        } else {
                            assert(orig[k + 1].handle == h2);
                        }
                        assert(old(self).has_instance(h2));
                        // the removed handle occurs nowhere else
                        if h2 == handle {
                            if k < idx {
                                assert(orig[k].handle == orig[idx as int].handle);
                            } else {
                                assert(orig[k + 1].handle == orig[idx as int].handle);
                            }
                        }
                    }
                    if old(self).has_instance(h2) && h2 != handle {
                        let j = choose|j: int|
                            0 <= j < orig.len() && (#[trigger] orig[j]).handle == h2;
                        assert(j != idx);
                        if j < idx {
                            assert(newi[j].handle == h2);
                        } else {
                            assert(newi[j - 1].handle == h2);
                        }
                    }
                }
                assert forall|a: int| 0 <= a < newi.len() implies (#[trigger] newi[a]).wf() by {
                    if a < idx {
                        assert(newi[a] == orig[a]);
                    } else {
                        assert(newi[a] == orig[a + 1]);
                    }
                }
                assert forall|a: int, b: int| 0 <= a < b < newi.len()
                    implies (#[trigger] newi[a]).handle != (#[trigger] newi[b]).handle by {
                    let a0: int = if a < idx { a } else { a + 1 };
                    let b0: int = if b < idx { b } else { b + 1 };
                    assert(newi[a] == orig[a0] && newi[b] == orig[b0]);
                }
                assert forall|a: int| 0 <= a < newi.len()
                    implies (#[trigger] newi[a]).handle.id < self.next_id by {
                    if a < idx {
                        assert(newi[a] == orig[a]);
                    } else {
                        assert(newi[a] == orig[a + 1]);
                    }
                }
                assert forall|inst: Instance|
                    final(self).instances@.contains(inst) <==> (old(self).instances@.contains(inst)
                        && inst.handle != handle) by {
                    if final(self).instances@.contains(inst) {
                        let k = choose|k: int| 0 <= k < newi.len() && newi[k] == inst;
                        let a0: int = if k < idx {
                            k
                        } else {
                            k + 1
                        };
                        assert(newi[k] == orig[a0]);
                        assert(orig.contains(inst));
                        if inst.handle == handle {
                            assert(a0 != idx);
                            assert(orig[a0].handle == orig[idx as int].handle);
                        }
                    }
                    if old(self).instances@.contains(inst) && inst.handle != handle {
                        let j = choose|j: int| 0 <= j < orig.len() && orig[j] == inst;
                        assert(j != idx);
                        if j < idx {
                            assert(newi[j] == inst);
                        } else {
                            assert(newi[j - 1] == inst);
                        }
                        assert(final(self).instances@.contains(inst));
                    }
                }
            }
        } else {
            proof {
                assert forall|h2: InstanceHandle|
                    self.has_instance(h2) <==> (old(self).has_instance(h2) && h2 != handle)
                    by {
                    if old(self).has_instance(handle) {
                        let j = choose|j: int|
                            0 <= j < orig.len() && (#[trigger] orig[j]).handle == handle;
                    }
                }
                assert forall|inst: Instance|
                    final(self).instances@.contains(inst) <==> (old(self).instances@.contains(inst)
                        && inst.handle != handle) by {
                    if old(self).instances@.contains(inst) && inst.handle == handle {
                        let j = choose|j: int| 0 <= j < orig.len() && orig[j] == inst;
                        assert(orig[j].handle != handle);
                    }
                }
            }
        }
    }

    /// Asks whether two ports may connect, without changing anything.
    pub fn can_connect(&self, from: PortHandle, to: PortHandle) -> (r: ConnectResult)
        ensures
            r == self.io.spec_can_connect(from, to),
    {
        self.io.can_connect(from, to)
    }

    /// Connects two ports, with replace semantics, re-validating first; a
    /// rejected request changes nothing and reports why.
    pub fn connect(&mut self, from: PortHandle, to: PortHandle) -> (r: Result<(), &'static str>)
        requires
            old(self).wf(),
        ensures
            final(self).wf(),
            final(self).instances@ == old(self).instances@,
            final(self).panels@ == old(self).panels@,
            final(self).modules@ == old(self).modules@,
            final(self).types@ == old(self).types@,
            final(self).next_id == old(self).next_id,
            final(self).io.conversions_view() == old(self).io.conversions_view(),
            ({
                let can = old(self).io.spec_can_connect(from, to);
                let new_edges = edges_drop(
                    old(self).io.edges(),
                    |e: (PortHandle, PortHandle)| e.1 == to,
                ).push((from, to));
                if can is Reject {
                    r is Err && final(self).io.same_state(old(self).io)
                } else if dag(dep_pairs_of(new_edges)) {
                    &&& r is Ok
                    &&& final(self).io.edges() == new_edges
                    &&& final(self).io.source_of(to) == Some(from)
                    &&& forall|f2: PortHandle, t2: PortHandle|
                        final(self).io.connected(f2, t2) <==> if t2 == to {
                            f2 == from
                        } else {
                            old(self).io.connected(f2, t2)
                        }
                    // replace semantics reach the staged store: a displaced
                    // input's staged value is cleared, so its next read falls
                    // back to the declared default until the new source writes
                    &&& forall|q: PortHandle|
                        final(self).io.staged(q) == if q == to && can is Warn {
                            None::<PortValue>
                        } else {
                            old(self).io.staged(q)
                        }
                } else {
                    r is Err && final(self).io.same_state(old(self).io)
                }
            }),
    {
        match self.io.connect(from, to) {
            ConnectResult::Accept => Ok(()),
            ConnectResult::Warn(_) => Ok(()),
            ConnectResult::Reject(e) => Err(e.as_str()),
        }
    }

    /// Disconnects an edge; the input falls back to its declared default.
    pub fn disconnect(&mut self, from: PortHandle, to: PortHandle)
        requires
            old(self).wf(),
        ensures
            final(self).wf(),
            final(self).instances@ == old(self).instances@,
            final(self).next_id == old(self).next_id,
            !old(self).io.connected(from, to) ==> final(self).io.same_state(old(self).io),
            old(self).io.connected(from, to) ==> {
                &&& forall|f2: PortHandle, t2: PortHandle|
                    final(self).io.connected(f2, t2) <==> (old(self).io.connected(f2, t2) && t2
                        != to)
                &&& final(self).io.source_of(to) is None
                &&& forall|q: PortHandle|
                    final(self).io.staged(q) == if q == to {
                        None::<PortValue>
                    } else {
                        old(self).io.staged(q)
                    }
            },
    {
        self.io.disconnect(from, to);
    }

    /// The stored instance behind a handle, if it is live.
    pub fn get_instance(&self, handle: InstanceHandle) -> (r: Option<&Instance>)
        ensures
            r is Some <==> self.has_instance(handle),
            r is Some ==> r->0.handle == handle && exists|i: int|
                0 <= i < self.instances@.len() && #[trigger] self.instances@[i] == *(r->0),
    {
        let mut i: usize = 0;
        while i < self.instances.len()
            invariant
                i <= self.instances@.len(),
                forall|j: int| 0 <= j < i ==> (#[trigger] self.instances@[j]).handle != handle,
            decreases self.instances@.len() - i,
        {
            if self.instances[i].handle.id == handle.id {
                return Some(&self.instances[i]);
            }
            i = i + 1;
        }
        proof {
            if self.has_instance(handle) {
                let j = choose|j: int|
                    0 <= j < self.instances@.len() && (#[trigger] self.instances@[j]).handle
                        == handle;
            }
        }
        None
    }

    /// The live port behind a handle: some port exactly when the handle's
    /// instance is live and carries such a port.
    pub fn get_port(&self, handle: PortHandle) -> (r: Option<&crate::instance::PortInstance>)
        requires
            self.wf(),
        ensures
            r is Some <==> (is_live(self.instances@, handle.instance) && self.instances@[
                live_index(self.instances@, handle.instance)
            ].spec_has_port(handle)),
            r is Some ==> r->0.handle == handle,
    {
        match self.get_instance(handle.instance) {
            Option::Some(instance) => {
                proof {
                    // the instance found is the unique live one
                    let i = choose|i: int|
                        0 <= i < self.instances@.len() && #[trigger] self.instances@[i]
                            == *instance;
                    assert(is_live(self.instances@, handle.instance));
                    let li = live_index(self.instances@, handle.instance);
                    assert(self.instances@[li].handle == handle.instance);
                    assert(li == i) by {
                        if li != i {
                            assert(self.instances@[li].handle != self.instances@[i].handle);
                        }
                    }
                }
                instance.get_port(handle)
            },
            Option::None => {
                proof {
                    if is_live(self.instances@, handle.instance) {
                        let i = choose|i: int|
                            0 <= i < self.instances@.len() && (#[trigger] self.instances@[
                                i
                            ]).handle == handle.instance;
                        assert(self.has_instance(handle.instance));
                    }
                }
                None
            },
        }
    }

    /// Evaluates the whole rack for `amount` samples: each sample walks the
    /// cached processing order once, so a producer's output is visible to
    /// its consumers within the same sample, and returns per sample the
    /// frames the audio sinks contributed.
    pub fn process_amount(&mut self, sample_rate: u32, amount: usize) -> (r: Vec<Vec<Frame>>)
        requires
            old(self).wf(),
            sample_rate >= 1,
        ensures
            final(self).wf(),
            r@.len() == amount,
            // the call is exactly `amount` samples of evaluation: per sample,
            // each instance of the cached order steps once, in order, by its
            // module's step relation, and the row collects the frames the
            // audio sinks contributed during that sample
            eval_samples(
                amount as nat,
                flat_order(old(self).io.processing_order@),
                sample_rate,
                old(self).instances@,
                final(self).instances@,
                old(self).io,
                final(self).io,
                r@.map_values(|v: Vec<Frame>| v@),
            ),
            final(self).instances@.len() == old(self).instances@.len(),
            forall|i: int|
                0 <= i < final(self).instances@.len() ==> (#[trigger] final(self).instances@[i]).handle == old(self).instances@[i].handle && final(self).instances@[i].kind == old(self).instances@[i].kind,
            final(self).panels@ == old(self).panels@,
            final(self).modules@ == old(self).modules@,
            final(self).types@ == old(self).types@,
            final(self).next_id == old(self).next_id,
    {
        let mut frames: Vec<Vec<Frame>> = Vec::new();

        // flatten the cached order once; the per-instance handles are stable
        // for the whole call
        let ghost passes = self.io.processing_order@;
        let mut order: Vec<InstanceHandle> = Vec::new();
        let mut p: usize = 0;
        while p < self.io.processing_order.len()
            invariant
                p <= passes.len(),
                self.io.processing_order@ == passes,
                order@ == flat_order(passes.take(p as int)),
            decreases passes.len() - p,
        {
            let pass = &self.io.processing_order[p];
            let mut q: usize = 0;
            while q < pass.len()
                invariant
                    q <= pass@.len(),
                    pass@ == passes[p as int]@,
                    p < passes.len(),
                    self.io.processing_order@ == passes,
                    order@ == flat_order(passes.take(p as int)) + pass@.take(q as int),
                decreases pass@.len() - q,
            {
                order.push(pass[q]);
                q = q + 1;
            }
            p = p + 1;
            proof {
                assert(passes.take(p as int).drop_last() =~= passes.take(p - 1));
                assert(passes.take(p as int).last() == passes[p - 1]);
                assert(pass@.take(pass@.len() as int) =~= pass@);
                assert(order@ =~= flat_order(passes.take(p as int)));
            }
        }
        proof {
            assert(passes.take(passes.len() as int) =~= passes);
        }

        // move the graph into the evaluation context
        let mut io = Io::new();
        core::mem::swap(&mut io, &mut self.io);
        let mut ctx = ProcessContext {
            sample_rate,
            handle: InstanceHandle::from_raw(0),
            io,
            sunk: Vec::new(),
        };

        let ghost orig_instances = old(self).instances@;
        let ghost orig_io = ctx.io;
        let mut s: usize = 0;
        while s < amount
            invariant
                s <= amount,
                frames@.len() == s,
                ctx.io.wf(),
                ctx.sample_rate == sample_rate,
                ctx.sunk@ == Seq::<Frame>::empty(),
                eval_samples(
                    s as nat,
                    order@,
                    sample_rate,
                    orig_instances,
                    self.instances@,
                    orig_io,
                    ctx.io,
                    frames@.map_values(|v: Vec<Frame>| v@),
                ),
                self.instances@.len() == orig_instances.len(),
                forall|i: int|
                    0 <= i < self.instances@.len() ==> (#[trigger] self.instances@[i]).wf() && (
                    self.instances@[i]).handle == orig_instances[i].handle && (
                    self.instances@[i]).kind == orig_instances[i].kind,
                forall|i: int, j: int|
                    0 <= i < j < self.instances@.len() ==> (#[trigger] self.instances@[i]).handle
                        != (#[trigger] self.instances@[j]).handle,
                forall|i: int|
                    0 <= i < self.instances@.len() ==> (#[trigger] self.instances@[i]).handle.id
                        < self.next_id,
                self.next_id == old(self).next_id,
                self.panels@ == old(self).panels@,
                self.modules@ == old(self).modules@,
                self.types@ == old(self).types@,
            decreases amount - s,
        {
            let ghost sample_instances = self.instances@;
            let ghost sample_io = ctx.io;
            let mut k: usize = 0;
            while k < order.len()
                invariant
                    k <= order@.len(),
                    ctx.io.wf(),
                    ctx.sample_rate == sample_rate,
                    eval_chain(
                        order@.take(k as int),
                        sample_rate,
                        sample_instances,
                        self.instances@,
                        sample_io,
                        ctx.io,
                        Seq::empty(),
                        ctx.sunk@,
                    ),
                    self.instances@.len() == orig_instances.len(),
                    forall|i: int|
                        0 <= i < self.instances@.len() ==> (#[trigger] self.instances@[i]).wf()
                            && (self.instances@[i]).handle == orig_instances[i].handle && (
                        self.instances@[i]).kind == orig_instances[i].kind,
                    forall|i: int, j: int|
                        0 <= i < j < self.instances@.len() ==> (#[trigger] self.instances@[i]).handle
                            != (#[trigger] self.instances@[j]).handle,
                    forall|i: int|
                        0 <= i < self.instances@.len() ==> (#[trigger] self.instances@[i]).handle.id
                            < self.next_id,
                    self.next_id == old(self).next_id,
                    self.panels@ == old(self).panels@,
                    self.modules@ == old(self).modules@,
                    self.types@ == old(self).types@,
                decreases order@.len() - k,
            {
                let h = order[k];
                let ghost mid_instances = self.instances@;
                let ghost mid_io = ctx.io;
                let ghost mid_sunk = ctx.sunk@;
                // look the instance up; an edge may survive its instance
                // only transiently, so a missing one is skipped
                let mut found: bool = false;
                let mut idx: usize = 0;
                let mut i: usize = 0;
                while i < self.instances.len()
                    invariant
                        i <= self.instances@.len(),
                        self.instances@ == mid_instances,
                        !found ==> forall|j: int|
                            0 <= j < i ==> (#[trigger] mid_instances[j]).handle != h,
                        found ==> idx < mid_instances.len() && mid_instances[
                            idx as int
                        ].handle == h,
                    decreases self.instances@.len() - i,
                {
                    if !found && self.instances[i].handle.id == h.id {
                        idx = i;
                        found = true;
                    }
                    i = i + 1;
                }
                if found {
                    ctx.handle = h;
                    let inst = &mut self.instances[idx];
                    inst.module.process(&mut ctx);
                    proof {
                        assert(is_live(mid_instances, h));
                        let li = live_index(mid_instances, h);
                        assert(mid_instances[li].handle == h);
                        assert(li == idx) by {
                            if li != idx {
                                assert(mid_instances[li].handle != mid_instances[
                                    idx as int
                                ].handle);
                            }
                        }
                        assert(self.instances@[idx as int] == (Instance {
                            module: self.instances@[idx as int].module,
                            ..mid_instances[idx as int]
                        }));
                        assert(instance_step(
                            h,
                            sample_rate,
                            mid_instances,
                            self.instances@,
                            mid_io,
                            ctx.io,
                            mid_sunk,
                            ctx.sunk@,
                        ));
                    }
                } else {
                    proof {
                        assert(!is_live(mid_instances, h)) by {
                            if is_live(mid_instances, h) {
                                let li = live_index(mid_instances, h);
                                assert(mid_instances[li].handle == h);
                            }
                        }
                        assert(instance_step(
                            h,
                            sample_rate,
                            mid_instances,
                            self.instances@,
                            mid_io,
                            ctx.io,
                            mid_sunk,
                            ctx.sunk@,
                        ));
                    }
                }
                k = k + 1;
                proof {
                    assert(order@.take(k as int).drop_last() =~= order@.take(k - 1));
                    assert(order@.take(k as int).last() == order@[k - 1]);
                    assert(eval_chain(
                        order@.take(k as int),
                        sample_rate,
                        sample_instances,
                        self.instances@,
                        sample_io,
                        ctx.io,
                        Seq::empty(),
                        ctx.sunk@,
                    ));
                }
            }
            let mut taken: Vec<Frame> = Vec::new();
            core::mem::swap(&mut taken, &mut ctx.sunk);
            let ghost old_rows = frames@.map_values(|v: Vec<Frame>| v@);
            frames.push(taken);
            s = s + 1;
            proof {
                assert(order@.take(order@.len() as int) =~= order@);
                let rows = frames@.map_values(|v: Vec<Frame>| v@);
                assert(rows.drop_last() =~= old_rows);
                assert(rows.last() == taken@);
                assert(eval_samples(
                    s as nat,
                    order@,
                    sample_rate,
                    orig_instances,
                    self.instances@,
                    orig_io,
                    ctx.io,
                    rows,
                ));
            }
        }

        core::mem::swap(&mut self.io, &mut ctx.io);
        proof {
            assert(frames@.map_values(|v: Vec<Frame>| v@).len() == amount);
        }
        frames
    }
}

} // verus!