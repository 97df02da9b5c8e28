#![verifier::loop_isolation(false)]

//! The connection graph: owns all current connections, staged input values
//! and registered conversions; performs connect/disconnect with compatibility
//! and replace checks, keeps the graph acyclic, and re-derives the processing
//! order on every edit.

use vstd::prelude::*;
use crate::instance::InstanceHandle;
use crate::module::{ConversionEntry, PortDescriptionDyn, PortId};
use crate::topo::{dag, rank_ok, sort_passes, valid_order, passes_view};
use crate::types::{Conversion, PortValue, ValueType};

verus! {

/// Accepted connection, but it displaces a prior edge.
#[derive(Clone, Copy, PartialEq, Eq, Structural, Debug)]
pub enum ConnectResultWarn {
    /// `Replace(old_source, to)`: connecting will remove the edge
    /// `old_source -> to`.
    Replace(PortHandle, PortHandle),
}

impl ConnectResultWarn {
    pub fn as_str(&self) -> (r: &'static str)
        ensures
            r@ == "replace"@,
    {
        match self {
            ConnectResultWarn::Replace(..) => "replace",
        }
    }
}

/// Rejected connection; the graph is left unchanged.
#[derive(Clone, Copy, PartialEq, Eq, Structural, Debug)]
pub enum ConnectResultErr {
    /// Both ports sit on the same instance.
    SameInstance,
    /// The value types differ and no registered conversion bridges them.
    InCompatible,
    /// The edge would make the instance dependencies cyclic.
    Cycle,
}

impl ConnectResultErr {
    pub fn as_str(&self) -> (r: &'static str)
        ensures
            *self is SameInstance ==> r@ == "same instance"@,
            *self is InCompatible ==> r@ == "incompatible"@,
            *self is Cycle ==> r@ == "cyclic dependency"@,
    {
        match self {
            ConnectResultErr::SameInstance => "same instance",
            ConnectResultErr::InCompatible => "incompatible",
            ConnectResultErr::Cycle => "cyclic dependency",
        }
    }
}

/// Outcome of asking whether two ports may connect.
#[derive(Clone, Copy, PartialEq, Eq, Structural, Debug)]
pub enum ConnectResult {
    Accept,
    Warn(ConnectResultWarn),
    Reject(ConnectResultErr),
}

impl ConnectResult {
    pub fn as_str(&self) -> (r: &'static str)
        ensures
            *self is Accept ==> r@ == "ok"@,
            *self is Warn ==> r@ == "replace"@,
            *self is Reject && self->Reject_0 is SameInstance ==> r@ == "same instance"@,
            *self is Reject && self->Reject_0 is InCompatible ==> r@ == "incompatible"@,
            *self is Reject && self->Reject_0 is Cycle ==> r@ == "cyclic dependency"@,
    {
        match self {
            ConnectResult::Accept => "ok",
            ConnectResult::Warn(w) => w.as_str(),
            ConnectResult::Reject(e) => e.as_str(),
        }
    }
}

/// One concrete port on one concrete instance.
#[derive(Clone, Copy, PartialEq, Eq, Structural, Hash, Debug)]
pub struct PortHandle {
    pub id: PortId,
    pub instance: InstanceHandle,
}

impl PortHandle {
    pub fn new(id: PortId, instance: InstanceHandle) -> (r: Self)
        ensures
            r == (PortHandle { id, instance }),
    {
        Self { id, instance }
    }

    /// Ports on one instance never connect; otherwise compatibility is the
    /// roles' value compatibility.
    pub fn is_compatible(&self, other: Self) -> (r: ConnectResult)
        ensures
            r == if self.instance == other.instance {
                ConnectResult::Reject(ConnectResultErr::SameInstance)
            } else if self.id.value_type == other.id.value_type {
                ConnectResult::Accept
            } else {
                ConnectResult::Reject(ConnectResultErr::InCompatible)
            },
    {
        if self.instance.id == other.instance.id {
            ConnectResult::Reject(ConnectResultErr::SameInstance)
        } else {
            self.id.is_compatible(other.id)
        }
    }
}

/// The staged value at a key, newest entry winning.
pub open spec fn staged_lookup(s: Seq<(PortHandle, PortValue)>, k: PortHandle) -> Option<
    PortValue,
>
    decreases s.len(),
{
    if s.len() == 0 {
        None
    } else if s.last().0 == k {
        Some(s.last().1)
    } else {
        staged_lookup(s.drop_last(), k)
    }
}

/// The source feeding an input, newest edge winning.
pub open spec fn source_lookup(s: Seq<(PortHandle, PortHandle)>, to: PortHandle) -> Option<
    PortHandle,
>
    decreases s.len(),
{
    if s.len() == 0 {
        None
    } else if s.last().1 == to {
        Some(s.last().0)
    } else {
        source_lookup(s.drop_last(), to)
    }
}

/// The newest registered adapter under an exact `(from, to, target)` key.
pub open spec fn conv_lookup(
    s: Seq<ConversionEntry>,
    from: ValueType,
    to: ValueType,
    target: Option<PortId>,
) -> Option<Conversion>
    decreases s.len(),
{
    if s.len() == 0 {
        None
    } else if s.last().from == from && s.last().to == to && s.last().target == target {
        Some(s.last().conv)
    } else {
        conv_lookup(s.drop_last(), from, to, target)
    }
}

/// The instance-level dependencies induced by a set of port edges: instance
/// `b` depends on instance `a` when some edge leads from a port of `a` to a
/// port of `b`.
pub open spec fn dep_pairs_of(s: Seq<(PortHandle, PortHandle)>) -> Set<(u64, u64)> {
    Set::new(
        |d: (u64, u64)|
            exists|i: int|
                0 <= i < s.len() && (#[trigger] s[i]).0.instance.id == d.0
                    && s[i].1.instance.id == d.1,
    )
}

/// The processing order as pass-by-pass instance identifiers.
pub open spec fn order_ids(order: Seq<Vec<InstanceHandle>>) -> Seq<Seq<u64>> {
    order.map_values(|v: Vec<InstanceHandle>| v@.map_values(|h: InstanceHandle| h.id))
}

/// Facilitates the data interaction between modules.
pub struct Io {
    /// Staged value for each input port written so far.
    pub inputs: Vec<(PortHandle, PortValue)>,
    /// The edges, each from an output port to an input port.
    pub connections: Vec<(PortHandle, PortHandle)>,
    /// Registered adapters between value types.
    pub conversions: Vec<ConversionEntry>,
    /// Cached evaluation order, re-derived on every edit of the edges.
    pub processing_order: Vec<Vec<InstanceHandle>>,
}

impl Io {
    pub open spec fn edges(self) -> Seq<(PortHandle, PortHandle)> {
        self.connections@
    }

    pub open spec fn staged(self, p: PortHandle) -> Option<PortValue> {
        staged_lookup(self.inputs@, p)
    }

    pub open spec fn connected(self, from: PortHandle, to: PortHandle) -> bool {
        self.edges().contains((from, to))
    }

    pub open spec fn source_of(self, to: PortHandle) -> Option<PortHandle> {
        source_lookup(self.edges(), to)
    }

    pub open spec fn conversions_view(self) -> Seq<ConversionEntry> {
        self.conversions@
    }

    pub open spec fn order_view(self) -> Seq<Seq<u64>> {
        order_ids(self.processing_order@)
    }

    pub open spec fn dep_pairs(self) -> Set<(u64, u64)> {
        dep_pairs_of(self.edges())
    }

    /// The registered adapter for coercing `from` into a port of role
    /// `port` declaring `to`: the port-specific entry if any, else the
    /// type-general one.
    pub open spec fn spec_find_conversion(
        self,
        from: ValueType,
        to: ValueType,
        port: PortId,
    ) -> Option<Conversion> {
        match conv_lookup(self.conversions_view(), from, to, Some(port)) {
            Some(c) => Some(c),
            None => conv_lookup(self.conversions_view(), from, to, None),
        }
    }

    /// Two port handles can carry a value from the first to the second:
    /// either the declared types match, or a registered conversion bridges
    /// them toward the target port.
    pub open spec fn spec_compatible(self, from: PortHandle, to: PortHandle) -> bool {
        ||| from.id.value_type == to.id.value_type
        ||| self.spec_find_conversion(from.id.value_type, to.id.value_type, to.id) is Some
    }

    /// What `can_connect` answers.
    pub open spec fn spec_can_connect(self, from: PortHandle, to: PortHandle) -> ConnectResult {
        if from.instance == to.instance {
            ConnectResult::Reject(ConnectResultErr::SameInstance)
        } else if !self.spec_compatible(from, to) {
            ConnectResult::Reject(ConnectResultErr::InCompatible)
        } else if self.source_of(to) is Some {
            ConnectResult::Warn(ConnectResultWarn::Replace(self.source_of(to)->0, to))
        } else {
            ConnectResult::Accept
        }
    }

    /// What reading an input of a live instance yields: the staged value if
    /// it already has the declared type, its image under a registered
    /// conversion if not, and the port's declared default when nothing is
    /// staged or no conversion applies.
    pub open spec fn spec_get_input(
        self,
        instance: InstanceHandle,
        id: PortId,
        default: PortValue,
    ) -> PortValue {
        let p = PortHandle { id, instance };
        match self.staged(p) {
            None => default,
            Some(v) => if v.value_type() == id.value_type {
                v
            } else {
                match self.spec_find_conversion(v.value_type(), id.value_type, id) {
                    Some(c) => c.spec_apply(v),
                    None => default,
                }
            },
        }
    }

    /// Relation between the staged stores before and after one output write:
    /// every input connected to `port` now stages `v`, everything else is
    /// untouched.
    pub open spec fn wrote_output(self, post: Io, port: PortHandle, v: PortValue) -> bool {
        &&& post.connections@ == self.connections@
        &&& post.conversions@ == self.conversions@
        &&& post.processing_order@ == self.processing_order@
        &&& forall|q: PortHandle|
            post.staged(q) == if self.connected(port, q) {
                Some(v)
            } else {
                self.staged(q)
            }
    }

    /// Each input port has at most one incoming edge.
    pub open spec fn at_most_one_source(self) -> bool {
        forall|i: int, j: int|
            0 <= i < j < self.edges().len() ==> (#[trigger] self.edges()[i]).1 != (
            #[trigger] self.edges()[j]).1
    }

    /// No edge connects two ports of one instance.
    pub open spec fn no_self_edges(self) -> bool {
        forall|i: int|
            0 <= i < self.edges().len() ==> (#[trigger] self.edges()[i]).0.instance
                != self.edges()[i].1.instance
    }

    /// Every registered adapter maps its declared `from` type to its
    /// declared `to` type.
    pub open spec fn conversions_wf(self) -> bool {
        forall|i: int|
            0 <= i < self.conversions_view().len() ==> (
            #[trigger] self.conversions_view()[i]).wf()
    }

    /// The graph invariant: one source per input, no self-edges, coherent
    /// adapters, acyclic instance dependencies, and a cached order that
    /// respects every dependency.
    pub open spec fn wf(self) -> bool {
        &&& self.at_most_one_source()
        &&& self.no_self_edges()
        &&& self.conversions_wf()
        &&& dag(self.dep_pairs())
        &&& valid_order(self.order_view(), self.dep_pairs())
    }

    /// An empty graph: no edges, nothing staged, no adapters.
    pub fn new() -> (r: Self)
        ensures
            r.edges() =~= Seq::<(PortHandle, PortHandle)>::empty(),
            r.inputs@ =~= Seq::<(PortHandle, PortValue)>::empty(),
            r.conversions_view() =~= Seq::<ConversionEntry>::empty(),
            r.order_view() =~= Seq::<Seq<u64>>::empty(),
            r.wf(),
    {
        let r = Self {
            inputs: Vec::new(),
            connections: Vec::new(),
            conversions: Vec::new(),
            processing_order: Vec::new(),
        };
        proof {
            let rank = Map::<u64, int>::empty();
            assert(rank_ok(rank, r.dep_pairs())) by {
                assert(forall|a: u64, b: u64| !(#[trigger] r.dep_pairs().contains((a, b))));
            }
            assert(dag(r.dep_pairs()));
            assert(valid_order(r.order_view(), r.dep_pairs())) by {
                assert(r.dep_pairs() =~= Set::<(u64, u64)>::empty());
                assert(crate::topo::vertex_set(r.dep_pairs()) =~= Set::<u64>::empty());
            }
        }
        r
    }

    /// Registers an adapter; a later registration under the same key
    /// supersedes an earlier one.
    pub fn add_conversion(&mut self, entry: ConversionEntry)
        requires
            entry.wf(),
            old(self).wf(),
        ensures
            final(self).wf(),
            final(self).conversions_view() == old(self).conversions_view().push(entry),
            final(self).edges() == old(self).edges(),
            final(self).inputs@ == old(self).inputs@,
            final(self).order_view() == old(self).order_view(),
    {
        let ghost pre = *self;
        self.conversions.push(entry);
        proof {
            assert(self.dep_pairs() =~= pre.dep_pairs());
            assert forall|i: int| 0 <= i < self.conversions_view().len()
                implies (#[trigger] self.conversions_view()[i]).wf() by {
                if i < pre.conversions_view().len() {
                    assert(pre.conversions_view()[i].wf());
                }
            }
        }
    }

    /// Looks up the adapter that coerces `from` into a port of role `port`
    /// declaring `to`: port-specific entries take precedence.
    pub fn find_conversion(&self, from: ValueType, to: ValueType, port: PortId) -> (r: Option<
        Conversion,
    >)
        ensures
            r == self.spec_find_conversion(from, to, port),
    {
        match self.conv_scan(from, to, Some(port)) {
            Some(c) => Some(c),
            None => self.conv_scan(from, to, None),
        }
    }

    /// Backward scan for the newest entry under an exact key.
    fn conv_scan(&self, from: ValueType, to: ValueType, target: Option<PortId>) -> (r: Option<
        Conversion,
    >)
        ensures
            r == conv_lookup(self.conversions_view(), from, to, target),
    {
        let s = &self.conversions;
        let mut i: usize = s.len();
        proof {
            assert(s@.take(s@.len() as int) =~= s@);
        }
        while i > 0
            invariant
                i <= s@.len(),
                conv_lookup(s@, from, to, target) == conv_lookup(s@.take(i as int), from, to, target),
            decreases i,
        {
            let e = &s[i - 1];
            let key_match = match (e.target, target) {
                (Option::Some(a), Option::Some(b)) => a.id == b.id && a.value_type == b.value_type,
                (Option::None, Option::None) => true,
                _ => false,
            };
            proof {
                assert(s@.take(i as int).last() == s@[i - 1]);
                assert(s@.take(i as int).drop_last() =~= s@.take(i - 1));
            }
            if e.from == from && e.to == to && key_match {
                proof {
                    assert(e.target == target) by {
                        if e.target is Some {
                            assert(e.target->0 == target->0);
                        }
                    }
                }
                return Some(e.conv);
            }
            proof {
                assert(s@[i - 1].from != from || s@[i - 1].to != to || s@[i - 1].target != target);
            }
            i = i - 1;
        }
        proof {
            assert(s@.take(0) =~= Seq::<ConversionEntry>::empty());
        }
        None
    }

    /// The raw staged value at an input port, if any.
    pub fn get_input_dyn(&self, port: PortHandle) -> (r: Option<PortValue>)
        ensures
            r == self.staged(port),
    {
        let s = &self.inputs;
        let mut i: usize = s.len();
        proof {
            assert(s@.take(s@.len() as int) =~= s@);
        }
        while i > 0
            invariant
                i <= s@.len(),
                staged_lookup(s@, port) == staged_lookup(s@.take(i as int), port),
            decreases i,
        {
            proof {
                assert(s@.take(i as int).last() == s@[i - 1]);
                assert(s@.take(i as int).drop_last() =~= s@.take(i - 1));
            }
            let e = &s[i - 1];
            if e.0.id.id == port.id.id && e.0.id.value_type == port.id.value_type
                && e.0.instance.id == port.instance.id {
                proof {
                    assert(s@[i - 1].0 == port);
                }
                return Some(e.1);
            }
            i = i - 1;
        }
        proof {
            assert(s@.take(0) =~= Seq::<(PortHandle, PortValue)>::empty());
        }
        None
    }

    /// Stages a value at an input port directly.  Meant for unconnected
    /// inputs edited by a controller; a connected input is overwritten by
    /// its source on the next evaluation.
    pub fn set_input_dyn(&mut self, port: PortHandle, value: PortValue)
        requires
            old(self).wf(),
        ensures
            final(self).wf(),
            forall|q: PortHandle|
                final(self).staged(q) == if q == port {
                    Some(value)
                } else {
                    old(self).staged(q)
                },
            final(self).edges() == old(self).edges(),
            final(self).conversions_view() == old(self).conversions_view(),
            final(self).order_view() == old(self).order_view(),
    {
        let ghost pre = *self;
        staged_upsert(&mut self.inputs, port, value);
        proof {
            lemma_wf_same_graph(pre, *self);
        }
    }

    /// Reads the input of a live instance: the staged value coerced to the
    /// declared type, else the declared default.
    pub fn get_input(&self, instance: InstanceHandle, role: &PortDescriptionDyn) -> (r: PortValue)
        requires
            role.default is Some,
        ensures
            r == self.spec_get_input(instance, role.id, role.default->0),
    {
        let p = PortHandle::new(role.id, instance);
        let staged = self.get_input_dyn(p);
        let default = match &role.default {
            Option::Some(d) => *d,
            Option::None => vstd::pervasive::unreached(),
        };
        match staged {
            Option::None => default,
            Option::Some(v) => {
                let vt = v.get_type();
                if vt == role.id.value_type {
                    v
                } else {
                    match self.find_conversion(vt, role.id.value_type, role.id) {
                        Option::Some(c) => c.apply(v),
                        Option::None => default,
                    }
                }
            },
        }
    }

    /// Propagates an output value to every connected input, immediately and
    /// synchronously.
    pub fn set_output_dyn(&mut self, port: PortHandle, value: PortValue)
        requires
            old(self).wf(),
        ensures
            final(self).wf(),
            forall|q: PortHandle|
                final(self).staged(q) == if old(self).connected(port, q) {
                    Some(value)
                } else {
                    old(self).staged(q)
                },
            final(self).connections@ == old(self).connections@,
            final(self).conversions@ == old(self).conversions@,
            final(self).processing_order@ == old(self).processing_order@,
    {
        let ghost orig = *self;
        let n = self.connections.len();
        let mut k: usize = 0;
        while k < n
            invariant
                n == self.connections@.len(),
                k <= n,
                self.connections@ == orig.connections@,
                self.conversions@ == orig.conversions@,
                self.processing_order@ == orig.processing_order@,
                forall|q: PortHandle|
                    self.staged(q) == if exists|i: int|
                        0 <= i < k && (#[trigger] orig.edges()[i]) == (port, q) {
                        Some(value)
                    } else {
                        orig.staged(q)
                    },
            decreases n - k,
        {
            let ghost pre = *self;
            let from = self.connections[k].0;
            let to = self.connections[k].1;
            let matched = port_handle_eq(&from, &port);
            if matched {
                staged_upsert(&mut self.inputs, to, value);
            }
            proof {
                assert(orig.edges()[k as int] == (from, to));
                assert forall|q: PortHandle|
                    self.staged(q) == if exists|i: int|
                        0 <= i < k + 1 && (#[trigger] orig.edges()[i]) == (port, q) {
                        Some(value)
                    } else {
                        orig.staged(q)
                    } by {
                    if matched && q == to {
                        assert(orig.edges()[k as int] == (port, q));
                        assert(self.staged(q) == Some(value));
                    } else {
                        assert(self.staged(q) == pre.staged(q)) by {
                            if matched {
                                assert(q != to);
                            }
                        }
                        if exists|i: int|
                            0 <= i < k + 1 && (#[trigger] orig.edges()[i]) == (port, q) {
                            let i = choose|i: int|
                                0 <= i < k + 1 && (#[trigger] orig.edges()[i]) == (port, q);
                            assert(i != k) by {
                                if i == k {
                                    assert(from == port && to == q);
                                }
                            }
                            assert(0 <= i < k && orig.edges()[i] == (port, q));
                            assert(pre.staged(q) == Some(value));
                        } else {
                            assert(!(exists|i: int|
                                0 <= i < k && (#[trigger] orig.edges()[i]) == (port, q)));
                            assert(pre.staged(q) == orig.staged(q));
                        }
                    }
                }
            }
            k = k + 1;
        }
        proof {
            lemma_wf_same_graph(orig, *self);
            assert forall|q: PortHandle|
                final(self).staged(q) == if orig.connected(port, q) {
                    Some(value)
                } else {
                    orig.staged(q)
                } by {
                if orig.connected(port, q) {
                    let j = choose|j: int|
                        0 <= j < orig.edges().len() && orig.edges()[j] == (port, q);
                    assert(0 <= j < n && (#[trigger] orig.edges()[j]) == (port, q));
                } else {
                    if exists|i: int|
                        0 <= i < n && (#[trigger] orig.edges()[i]) == (port, q) {
                        let i = choose|i: int|
                            0 <= i < n && (#[trigger] orig.edges()[i]) == (port, q);
                        assert(orig.edges().contains((port, q)));
                    }
                }
            }
        }
    }

    /// The handle of the output feeding `input`, if that input is connected.
    pub fn input_connection(&self, input: PortHandle) -> (r: Option<PortHandle>)
        ensures
            r == self.source_of(input),
    {
        let s = &self.connections;
        let mut i: usize = s.len();
        proof {
            assert(s@.take(s@.len() as int) =~= s@);
        }
        while i > 0
            invariant
                i <= s@.len(),
                source_lookup(s@, input) == source_lookup(s@.take(i as int), input),
            decreases i,
        {
            proof {
                assert(s@.take(i as int).last() == s@[i - 1]);
                assert(s@.take(i as int).drop_last() =~= s@.take(i - 1));
            }
            let e = &s[i - 1];
            if port_handle_eq(&e.1, &input) {
                return Some(e.0);
            }
            i = i - 1;
        }
        proof {
            assert(s@.take(0) =~= Seq::<(PortHandle, PortHandle)>::empty());
        }
        None
    }

    /// The handles of all inputs fed from `handle`.
    pub fn output_connections(&self, handle: PortHandle) -> (r: Vec<PortHandle>)
        ensures
            forall|t: PortHandle| r@.contains(t) <==> self.connected(handle, t),
    {
        let s = &self.connections;
        let mut out: Vec<PortHandle> = Vec::new();
        let mut i: usize = 0;
        while i < s.len()
            invariant
                i <= s@.len(),
                forall|t: PortHandle|
                    out@.contains(t) <==> exists|j: int|
                        0 <= j < i && (#[trigger] s@[j]) == (handle, t),
            decreases s@.len() - i,
        {
            let e = &s[i];
            let ghost old_out = out@;
            if port_handle_eq(&e.0, &handle) {
                out.push(e.1);
            }
            i = i + 1;
            proof {
                assert forall|t: PortHandle|
                    out@.contains(t) <==> exists|j: int|
                        0 <= j < i && (#[trigger] s@[j]) == (handle, t) by {
                    if s@[i - 1] == (handle, t) {
                        assert(out@.last() == t);
                    }
                    if out@.contains(t) {
                        if out@ == old_out.push(t) && old_out.contains(t) {
                        }
                        let j = choose|j: int| 0 <= j < out@.len() && out@[j] == t;
                        if j < old_out.len() {
                            assert(old_out.contains(t));
                        }
                    }
                    if exists|j: int| 0 <= j < i - 1 && (#[trigger] s@[j]) == (handle, t) {
                        assert(old_out.contains(t));
                        let j = choose|j: int| 0 <= j < old_out.len() && old_out[j] == t;
                        assert(out@[j] == t);
                    }
                }
            }
        }
        proof {
            assert forall|t: PortHandle| out@.contains(t) <==> self.connected(handle, t) by {
                if self.connected(handle, t) {
                    let j = choose|j: int| 0 <= j < s@.len() && s@[j] == (handle, t);
                }
            }
        }
        out
    }

    /// Whether any edge touches this port, on either side.
    pub fn has_connection(&self, port: PortHandle) -> (r: bool)
        ensures
            r <==> (self.source_of(port) is Some || exists|t: PortHandle|
                self.connected(port, t)),
    {
        if self.input_connection(port).is_some() {
            return true;
        }
        let s = &self.connections;
        let mut i: usize = 0;
        while i < s.len()
            invariant
                i <= s@.len(),
                forall|j: int| 0 <= j < i ==> (#[trigger] s@[j]).0 != port,
            decreases s@.len() - i,
        {
            if port_handle_eq(&s[i].0, &port) {
                proof {
                    assert(self.connected(port, s@[i as int].1));
                }
                return true;
            }
            i = i + 1;
        }
        proof {
            assert forall|t: PortHandle| !self.connected(port, t) by {
                if self.connected(port, t) {
                    let j = choose|j: int| 0 <= j < s@.len() && s@[j] == (port, t);
                }
            }
        }
        false
    }

    /// The per-instance dependency pairs induced by the current edges.
    fn instance_dependencies(&self) -> (r: Vec<(u64, u64)>)
        ensures
            r@.to_set() == self.dep_pairs(),
    {
        let s = &self.connections;
        let mut out: Vec<(u64, u64)> = Vec::new();
        let mut i: usize = 0;
        while i < s.len()
            invariant
                i <= s@.len(),
                out@.to_set() =~= dep_pairs_of(s@.take(i as int)),
            decreases s@.len() - i,
        {
            let e = &s[i];
            let ghost old_out = out@;
            out.push((e.0.instance.id, e.1.instance.id));
            i = i + 1;
            proof {
                let s1 = s@.take(i as int);
                assert forall|d: (u64, u64)| out@.to_set().contains(d)
                    implies dep_pairs_of(s1).contains(d) by {
                    let j = choose|j: int| 0 <= j < out@.len() && out@[j] == d;
                    if j < old_out.len() {
                        assert(old_out.to_set().contains(d));
                        let k = choose|k: int|
                            0 <= k < s@.take(i - 1).len()
                                && (#[trigger] s@.take(i - 1)[k]).0.instance.id == d.0
                                && s@.take(i - 1)[k].1.instance.id == d.1;
                        assert((s1[k]).0.instance.id == d.0 && s1[k].1.instance.id == d.1);
                    } else {
                        assert(d == (s@[i - 1].0.instance.id, s@[i - 1].1.instance.id));
                        assert((s1[i - 1]).0.instance.id == d.0 && s1[i - 1].1.instance.id == d.1);
                    }
                }
                assert forall|d: (u64, u64)| dep_pairs_of(s1).contains(d)
                    implies out@.to_set().contains(d) by {
                    let k = choose|k: int|
                        0 <= k < s1.len() && (#[trigger] s1[k]).0.instance.id == d.0
                            && s1[k].1.instance.id == d.1;
                    if k < i - 1 {
                        assert(s@.take(i - 1)[k] == s1[k]);
                        assert(dep_pairs_of(s@.take(i - 1)).contains(d));
                        assert(old_out.to_set().contains(d));
                        let j = choose|j: int| 0 <= j < old_out.len() && old_out[j] == d;
                        assert(out@[j] == d);
                    } else {
                        assert(out@.last() == d) by {
                            assert(d.0 == s@[i - 1].0.instance.id && d.1 == s@[i - 1].1.instance.id);
                        }
                    }
                    assert(out@.contains(d));
                }
            }
        }
        proof {
            assert(s@.take(s@.len() as int) =~= s@);
        }
        out
    }

    /// Kahn-style topological sort over the instance dependencies: succeeds
    /// with an order respecting every dependency exactly when the
    /// dependencies are acyclic, and reports the cycle otherwise.
    pub fn compute_instances_processing_order(&self) -> (r: Result<
        Vec<Vec<InstanceHandle>>,
        &'static str,
    >)
        ensures
            r is Ok ==> valid_order(order_ids(r->Ok_0@), self.dep_pairs()),
            r is Ok <==> dag(self.dep_pairs()),
    {
        let pairs = self.instance_dependencies();
        match sort_passes(&pairs) {
            Result::Ok(passes) => {
                let mut out: Vec<Vec<InstanceHandle>> = Vec::new();
                let mut i: usize = 0;
                while i < passes.len()
                    invariant
                        i <= passes@.len(),
                        out@.len() == i,
                        forall|j: int|
                            0 <= j < i ==> order_ids(out@)[j] == passes_view(passes@)[j],
                    decreases passes@.len() - i,
                {
                    let src = &passes[i];
                    let mut row: Vec<InstanceHandle> = Vec::new();
                    let mut j: usize = 0;
                    while j < src.len()
                        invariant
                            j <= src@.len(),
                            row@.len() == j,
                            forall|k: int| 0 <= k < j ==> (#[trigger] row@[k]).id == src@[k],
                        decreases src@.len() - j,
                    {
                        row.push(InstanceHandle::from_raw(src[j]));
                        j = j + 1;
                    }
                    let ghost old_out = out@;
                    out.push(row);
                    i = i + 1;
                    proof {
                        assert forall|j2: int| 0 <= j2 < i
                            implies order_ids(out@)[j2] == passes_view(passes@)[j2] by {
                            if j2 < i - 1 {
                                assert(order_ids(old_out)[j2] == passes_view(passes@)[j2]);
                                assert(out@[j2] == old_out[j2]);
                            } else {
                                assert(out@[j2] == row);
                                assert(order_ids(out@)[j2]
                                    == row@.map_values(|h: InstanceHandle| h.id));
                                assert(row@.map_values(|h: InstanceHandle| h.id) =~= src@);
                                assert(passes_view(passes@)[j2] == passes@[j2]@);
                            }
                        }
                    }
                }
                proof {
                    assert(order_ids(out@) =~= passes_view(passes@));
                }
                Result::Ok(out)
            },
            Result::Err(msg) => Result::Err(msg),
        }
    }

    /// Re-derives and caches the processing order; the graph invariant
    /// guarantees the derivation succeeds.
    pub fn update_instances_processing_order(&mut self)
        requires
            old(self).at_most_one_source(),
            old(self).no_self_edges(),
            old(self).conversions_wf(),
            dag(old(self).dep_pairs()),
        ensures
            final(self).wf(),
            final(self).edges() == old(self).edges(),
            final(self).inputs@ == old(self).inputs@,
            final(self).conversions_view() == old(self).conversions_view(),
    {
        let order = match self.compute_instances_processing_order() {
            Result::Ok(order) => order,
            Result::Err(_) => vstd::pervasive::unreached(),
        };
        let ghost pre = *self;
        self.processing_order = order;
        proof {
            assert(self.dep_pairs() =~= pre.dep_pairs());
            assert(self.order_view() == order_ids(order@));
            assert forall|i: int| 0 <= i < self.conversions_view().len()
                implies (#[trigger] self.conversions_view()[i]).wf() by {
                assert(pre.conversions_view()[i].wf());
            }
            assert forall|i: int, j: int| 0 <= i < j < self.edges().len()
                implies (#[trigger] self.edges()[i]).1 != (#[trigger] self.edges()[j]).1 by {
                assert(pre.edges()[i].1 != pre.edges()[j].1);
            }
            assert forall|i: int| 0 <= i < self.edges().len()
                implies (#[trigger] self.edges()[i]).0.instance != self.edges()[i].1.instance by {
                assert(pre.edges()[i].0.instance != pre.edges()[i].1.instance);
            }
        }
    }

    /// Whether two ports may connect: rejects ports of one instance, rejects
    /// value types that neither match nor convert, and warns when the target
    /// already has a source that the connection would replace.
    pub fn can_connect(&self, from: PortHandle, to: PortHandle) -> (r: ConnectResult)
        ensures
            r == self.spec_can_connect(from, to),
    {
        if from.instance.id == to.instance.id {
            return ConnectResult::Reject(ConnectResultErr::SameInstance);
        }
        let compatible = if from.id.value_type == to.id.value_type {
            true
        } else {
            self.find_conversion(from.id.value_type, to.id.value_type, to.id).is_some()
        };
        if !compatible {
            return ConnectResult::Reject(ConnectResultErr::InCompatible);
        }
        match self.input_connection(to) {
            Option::Some(c) => ConnectResult::Warn(ConnectResultWarn::Replace(c, to)),
            Option::None => ConnectResult::Accept,
        }
    }


    /// The current edges, each from an output port to an input port.
    pub fn connections(&self) -> (r: &Vec<(PortHandle, PortHandle)>)
        ensures
            r@ == self.edges(),
    {
        &self.connections
    }

    /// The cached processing order, pass by pass.
    pub fn processing_order(&self) -> (r: &Vec<Vec<InstanceHandle>>)
        ensures
            r@ == self.processing_order@,
    {
        &self.processing_order
    }

    /// Two graph values with identical stores.
    pub open spec fn same_state(self, other: Io) -> bool {
        &&& self.connections@ == other.connections@
        &&& self.inputs@ == other.inputs@
        &&& self.conversions@ == other.conversions@
        &&& self.processing_order@ == other.processing_order@
    }

    /// Connects an output port to an input port.  Re-validates, removes any
    /// prior edge into `to` together with its staged value (replace
    /// semantics), inserts the new edge and re-derives the processing order.
    /// A rejected connection, including one that would make the instance
    /// dependencies cyclic, changes nothing.
    pub fn connect(&mut self, from: PortHandle, to: PortHandle) -> (r: ConnectResult)
        requires
            old(self).wf(),
        ensures
            final(self).wf(),
            final(self).conversions_view() == old(self).conversions_view(),
            ({
                let can = old(self).spec_can_connect(from, to);
                let new_edges = edges_drop(
                    old(self).edges(),
                    |e: (PortHandle, PortHandle)| e.1 == to,
                ).push((from, to));
                if can is Reject {
                    r == can && final(self).same_state(*old(self))
                } else if dag(dep_pairs_of(new_edges)) {
                    &&& r == can
                    &&& final(self).edges() == new_edges
                    &&& final(self).source_of(to) == Some(from)
                    &&& forall|f2: PortHandle, t2: PortHandle|
                        final(self).connected(f2, t2) <==> if t2 == to {
                            f2 == from
                        } else {
                            old(self).connected(f2, t2)
                        }
                    &&& forall|q: PortHandle|
                        final(self).staged(q) == if q == to && can is Warn {
                            None::<PortValue>
                        } else {
                            old(self).staged(q)
                        }
                } else {
                    r == ConnectResult::Reject(ConnectResultErr::Cycle) && final(self).same_state(
                        *old(self),
                    )
                }
            }),
    {
        let ghost orig = *self;
        let can = self.can_connect(from, to);
        if let ConnectResult::Reject(_) = can {
            return can;
        }
        let saved_edges = copy_vec(&self.connections);
        let saved_inputs = copy_vec(&self.inputs);
        let had_source = self.input_connection(to).is_some();

        // replace semantics: drop the prior edge into `to` and its staged value
        let ghost pred = |e: (PortHandle, PortHandle)| e.1 == to;
        let src = &self.connections;
        let mut kept: Vec<(PortHandle, PortHandle)> = Vec::new();
        let mut i: usize = 0;
        while i < src.len()
            invariant
                i <= src@.len(),
                kept@ == edges_drop(src@.take(i as int), pred),
            decreases src@.len() - i,
        {
            let e = src[i];
            proof {
                assert(src@.take(i + 1).drop_last() =~= src@.take(i as int));
                assert(src@.take(i + 1).last() == src@[i as int]);
            }
            if !port_handle_eq(&e.1, &to) {
                kept.push(e);
            }
            i = i + 1;
        }
        proof {
            assert(src@.take(src@.len() as int) =~= src@);
        }
        kept.push((from, to));
        let ghost new_edges = kept@;
        self.connections = kept;
        if had_source {
            staged_remove(&mut self.inputs, to);
        }

        match self.compute_instances_processing_order() {
            Result::Ok(order) => {
                self.processing_order = order;
                proof {
                    let w = edges_drop(orig.edges(), pred);
                    lemma_edges_drop_distinct(orig.edges(), pred);
                    lemma_edges_drop_index(orig.edges(), pred);
                    // one source per input in the new edge list
                    assert forall|a: int, b: int| 0 <= a < b < new_edges.len()
                        implies (#[trigger] new_edges[a]).1 != (#[trigger] new_edges[b]).1 by {
                        if b == new_edges.len() - 1 {
                            assert(new_edges[a] == w[a]);
                            assert(!pred(w[a]));
                        } else {
                            assert(new_edges[a] == w[a] && new_edges[b] == w[b]);
                        }
                    }
                    // no self-edges in the new edge list
                    assert forall|a: int| 0 <= a < new_edges.len()
                        implies (#[trigger] new_edges[a]).0.instance != new_edges[a].1.instance by {
                        if a < new_edges.len() - 1 {
                            assert(orig.edges().contains(w[a]));
                            let k = choose|k: int|
                                0 <= k < orig.edges().len() && orig.edges()[k] == w[a];
                            assert(orig.edges()[k].0.instance != orig.edges()[k].1.instance);
                        } else {
                            assert(new_edges[a] == (from, to));
                            assert(!(orig.spec_can_connect(from, to) is Reject));
                        }
                    }
                    assert(self.dep_pairs() =~= dep_pairs_of(new_edges));
                    // the new source of `to` is the pushed edge
                    assert(source_lookup(new_edges, to) == Some(from)) by {
                        assert(new_edges.last() == (from, to));
                    }
                    // edge membership after the edit
                    assert forall|f2: PortHandle, t2: PortHandle|
                        final(self).connected(f2, t2) <==> if t2 == to {
                            f2 == from
                        } else {
                            orig.connected(f2, t2)
                        } by {
                        lemma_edges_drop_contains(orig.edges(), pred, (f2, t2));
                        if final(self).connected(f2, t2) {
                            let k = choose|k: int|
                                0 <= k < new_edges.len() && new_edges[k] == (f2, t2);
                            if k < new_edges.len() - 1 {
                                assert(w.contains((f2, t2))) by {
                                    assert(w[k] == (f2, t2));
                                }
                            } else {
                                assert((f2, t2) == (from, to));
                            }
                        }
                        if t2 == to && f2 == from {
                            assert(new_edges.last() == (f2, t2));
                            assert(new_edges.contains((f2, t2)));
                        }
                        if t2 != to && orig.connected(f2, t2) {
                            assert(w.contains((f2, t2)));
                            let k = choose|k: int| 0 <= k < w.len() && w[k] == (f2, t2);
                            assert(new_edges[k] == (f2, t2));
                            assert(new_edges.contains((f2, t2)));
                        }
                    }
                    // the staged store lost exactly the replaced input
                    assert forall|q: PortHandle|
                        final(self).staged(q) == if q == to && orig.spec_can_connect(from, to) is Warn {
                            None::<PortValue>
                        } else {
                            orig.staged(q)
                        } by {
                        if had_source {
                            if q != to {
                                lemma_staged_lookup_without(orig.inputs@, to, q);
                            } else {
                                lemma_staged_lookup_without_none(orig.inputs@, to);
                            }
                        }
                    }
                }
                can
            },
            Result::Err(_) => {
                self.connections = saved_edges;
                self.inputs = saved_inputs;
                proof {
                    lemma_wf_same_graph(orig, *self);
                }
                ConnectResult::Reject(ConnectResultErr::Cycle)
            },
        }
    }


    /// Removes the edge into `to` if it is `from -> to`, clears the staged
    /// value at `to` (a disconnected input falls back to its declared
    /// default) and re-derives the processing order; otherwise changes
    /// nothing.
    pub fn disconnect(&mut self, from: PortHandle, to: PortHandle)
        requires
            old(self).wf(),
        ensures
            final(self).wf(),
            final(self).conversions_view() == old(self).conversions_view(),
            !old(self).connected(from, to) ==> final(self).same_state(*old(self)),
            old(self).connected(from, to) ==> {
                &&& forall|f2: PortHandle, t2: PortHandle|
                    final(self).connected(f2, t2) <==> (old(self).connected(f2, t2) && t2 != to)
                &&& final(self).source_of(to) is None
                &&& forall|q: PortHandle|
                    final(self).staged(q) == if q == to {
                        None::<PortValue>
                    } else {
                        old(self).staged(q)
                    }
            },
    {
        let ghost orig = *self;
        let matches_edge = match self.input_connection(to) {
            Option::Some(c) => c.id.id == from.id.id && c.id.value_type == from.id.value_type
                && c.instance.id == from.instance.id,
            Option::None => false,
        };
        if !matches_edge {
            proof {
                if orig.connected(from, to) {
                    lemma_connected_source(orig, from, to);
                }
            }
            return;
        }
        proof {
            lemma_source_contains(orig.edges(), to);
        }

        let ghost pred = |e: (PortHandle, PortHandle)| e.1 == to;
        let src = &self.connections;
        let mut kept: Vec<(PortHandle, PortHandle)> = Vec::new();
        let mut i: usize = 0;
        while i < src.len()
            invariant
                i <= src@.len(),
                kept@ == edges_drop(src@.take(i as int), pred),
            decreases src@.len() - i,
        {
            let e = src[i];
            proof {
                assert(src@.take(i + 1).drop_last() =~= src@.take(i as int));
                assert(src@.take(i + 1).last() == src@[i as int]);
            }
            if !port_handle_eq(&e.1, &to) {
                kept.push(e);
            }
            i = i + 1;
        }
        proof {
            assert(src@.take(src@.len() as int) =~= src@);
        }
        self.connections = kept;
        staged_remove(&mut self.inputs, to);
        proof {
            lemma_edges_drop_wf(orig.edges(), pred);
            assert(dag(self.dep_pairs())) by {
                crate::topo::lemma_dag_subset(
                    dep_pairs_of(edges_drop(orig.edges(), pred)),
                    orig.dep_pairs(),
                );
            }
        }
        proof {
            assert forall|ci: int| 0 <= ci < self.conversions_view().len()
                implies (#[trigger] self.conversions_view()[ci]).wf() by {
                assert(orig.conversions_view()[ci].wf());
            }
        }
        self.update_instances_processing_order();
        proof {
            let w = edges_drop(orig.edges(), pred);
            assert forall|f2: PortHandle, t2: PortHandle|
                final(self).connected(f2, t2) <==> (orig.connected(f2, t2) && t2 != to) by {
                lemma_edges_drop_contains(orig.edges(), pred, (f2, t2));
            }
            assert(final(self).source_of(to) is None) by {
                lemma_source_contains(w, to);
                if exists|f: PortHandle| w.contains((f, to)) {
                    let f = choose|f: PortHandle| w.contains((f, to));
                    lemma_edges_drop_contains(orig.edges(), pred, (f, to));
                }
            }
            assert forall|q: PortHandle|
                final(self).staged(q) == if q == to {
                    None::<PortValue>
                } else {
                    orig.staged(q)
                } by {
                if q == to {
                    lemma_staged_lookup_without_none(orig.inputs@, to);
                } else {
                    lemma_staged_lookup_without(orig.inputs@, to, q);
                }
            }
        }
    }

    /// Disconnects everything touching one port: its incoming edge if any,
    /// and every outgoing edge, clearing the staged values of the inputs
    /// those edges fed.
    pub fn clear_port(&mut self, handle: PortHandle)
        requires
            old(self).wf(),
        ensures
            final(self).wf(),
            final(self).conversions_view() == old(self).conversions_view(),
            forall|f2: PortHandle, t2: PortHandle|
                final(self).connected(f2, t2) <==> (old(self).connected(f2, t2) && f2 != handle
                    && t2 != handle),
            forall|q: PortHandle|
                final(self).staged(q) == if old(self).connected(handle, q) || (q == handle
                    && old(self).source_of(handle) is Some) {
                    None::<PortValue>
                } else {
                    old(self).staged(q)
                },
    {
        let ghost orig = *self;
        let targets = self.output_connections(handle);
        let had_in = self.input_connection(handle).is_some();
        let ghost scrub = |q: PortHandle| orig.connected(handle, q) || (q == handle
            && orig.source_of(handle) is Some);

        // scrub the staged values of every input this port fed
        let ins = &self.inputs;
        let mut kept_inputs: Vec<(PortHandle, PortValue)> = Vec::new();
        let mut i: usize = 0;
        while i < ins.len()
            invariant
                i <= ins@.len(),
                kept_inputs@ == staged_drop(ins@.take(i as int), scrub),
                ins@ == orig.inputs@,
                forall|t: PortHandle| targets@.contains(t) <==> orig.connected(handle, t),
                had_in <==> orig.source_of(handle) is Some,
            decreases ins@.len() - i,
        {
            let e = ins[i];
            proof {
                assert(ins@.take(i + 1).drop_last() =~= ins@.take(i as int));
                assert(ins@.take(i + 1).last() == ins@[i as int]);
            }
            let dropped = vec_contains_port(&targets, &e.0) || (had_in && port_handle_eq(
                &e.0,
                &handle,
            ));
            proof {
                assert(dropped == scrub(e.0));
            }
            if !dropped {
                kept_inputs.push(e);
            }
            i = i + 1;
        }
        proof {
            assert(ins@.take(ins@.len() as int) =~= ins@);
        }
        self.inputs = kept_inputs;

        // drop every edge touching the port
        let ghost pred = |e: (PortHandle, PortHandle)| e.0 == handle || e.1 == handle;
        let src = &self.connections;
        let mut kept: Vec<(PortHandle, PortHandle)> = Vec::new();
        let mut j: usize = 0;
        while j < src.len()
            invariant
                j <= src@.len(),
                kept@ == edges_drop(src@.take(j as int), pred),
            decreases src@.len() - j,
        {
            let e = src[j];
            proof {
                assert(src@.take(j + 1).drop_last() =~= src@.take(j as int));
                assert(src@.take(j + 1).last() == src@[j as int]);
            }
            if !(port_handle_eq(&e.0, &handle) || port_handle_eq(&e.1, &handle)) {
                kept.push(e);
            }
            j = j + 1;
        }
        proof {
            assert(src@.take(src@.len() as int) =~= src@);
        }
        self.connections = kept;
        proof {
            lemma_edges_drop_wf(orig.edges(), pred);
            assert(dag(self.dep_pairs())) by {
                crate::topo::lemma_dag_subset(
                    dep_pairs_of(edges_drop(orig.edges(), pred)),
                    orig.dep_pairs(),
                );
            }
        }
        proof {
            assert forall|ci: int| 0 <= ci < self.conversions_view().len()
                implies (#[trigger] self.conversions_view()[ci]).wf() by {
                assert(orig.conversions_view()[ci].wf());
            }
        }
        self.update_instances_processing_order();
        proof {
            assert forall|f2: PortHandle, t2: PortHandle|
                final(self).connected(f2, t2) <==> (orig.connected(f2, t2) && f2 != handle && t2
                    != handle) by {
                lemma_edges_drop_contains(orig.edges(), pred, (f2, t2));
            }
            assert forall|q: PortHandle|
                final(self).staged(q) == if orig.connected(handle, q) || (q == handle
                    && orig.source_of(handle) is Some) {
                    None::<PortValue>
                } else {
                    orig.staged(q)
                } by {
                lemma_staged_lookup_drop(orig.inputs@, scrub, q);
            }
        }
    }

    /// The handles of every port of an instance that some edge touches.
    pub fn instance_ports(&self, instance: InstanceHandle) -> (r: Vec<PortHandle>)
        ensures
            forall|p: PortHandle|
                r@.contains(p) <==> (p.instance == instance && exists|e: (PortHandle, PortHandle)|
                    #[trigger] self.edges().contains(e) && (e.0 == p || e.1 == p)),
    {
        let s = &self.connections;
        let mut out: Vec<PortHandle> = Vec::new();
        let mut i: usize = 0;
        while i < s.len()
            invariant
                i <= s@.len(),
                forall|p: PortHandle|
                    out@.contains(p) <==> (p.instance == instance && exists|j: int|
                        0 <= j < i && ((#[trigger] s@[j]).0 == p || s@[j].1 == p)),
            decreases s@.len() - i,
        {
            let e = s[i];
            let ghost old_out = out@;
            if e.0.instance.id == instance.id {
                out.push(e.0);
            }
            if e.1.instance.id == instance.id {
                out.push(e.1);
            }
            i = i + 1;
            proof {
                let prev = s@[i - 1];
                let mid: Seq<PortHandle> = if prev.0.instance == instance {
                    old_out.push(prev.0)
                } else {
                    old_out
                };
                assert(out@ == if prev.1.instance == instance {
                    mid.push(prev.1)
                } else {
                    mid
                });
                assert forall|p: PortHandle|
                    out@.contains(p) <==> (p.instance == instance && exists|j: int|
                        0 <= j < i && ((#[trigger] s@[j]).0 == p || s@[j].1 == p)) by {
                    if prev.0.instance == instance {
                        lemma_push_contains_port(old_out, prev.0, p);
                    }
                    if prev.1.instance == instance {
                        lemma_push_contains_port(mid, prev.1, p);
                    }
                    if out@.contains(p) {
                        if old_out.contains(p) {
                        } else {
                            assert(p == prev.0 || p == prev.1);
                            assert(s@[i - 1].0 == p || s@[i - 1].1 == p);
                        }
                    }
                    if p.instance == instance && exists|j: int|
                        0 <= j < i && ((#[trigger] s@[j]).0 == p || s@[j].1 == p) {
                        let j = choose|j: int|
                            0 <= j < i && ((#[trigger] s@[j]).0 == p || s@[j].1 == p);
                        if j < i - 1 {
                            assert(old_out.contains(p));
                            assert(mid.contains(p)) by {
                                if prev.0.instance == instance {
                                    lemma_push_contains_port(old_out, prev.0, p);
                                }
                            }
                        } else {
                            assert(prev.0 == p || prev.1 == p);
                            assert(mid.contains(p) || p == prev.1);
                        }
                    }
                }
            }
        }
        proof {
            assert forall|p: PortHandle|
                out@.contains(p) <==> (p.instance == instance && exists|e: (
                    PortHandle,
                    PortHandle,
                )| #[trigger] self.edges().contains(e) && (e.0 == p || e.1 == p)) by {
                if out@.contains(p) {
                    let j = choose|j: int|
                        0 <= j < s@.len() && ((#[trigger] s@[j]).0 == p || s@[j].1 == p);
                    assert(self.edges().contains(s@[j]));
                }
                if p.instance == instance && exists|e: (PortHandle, PortHandle)|
                    #[trigger] self.edges().contains(e) && (e.0 == p || e.1 == p) {
                    let e = choose|e: (PortHandle, PortHandle)|
                        #[trigger] self.edges().contains(e) && (e.0 == p || e.1 == p);
                    let j = choose|j: int| 0 <= j < s@.len() && s@[j] == e;
                }
            }
        }
        out
    }

    /// Tears an instance down: removes every edge touching it, on either
    /// side, and scrubs the staged values those edges fed, so that no
    /// dangling reference to the instance remains.
    pub fn remove_instance(&mut self, instance: InstanceHandle)
        requires
            old(self).wf(),
        ensures
            final(self).wf(),
            final(self).conversions_view() == old(self).conversions_view(),
            forall|f2: PortHandle, t2: PortHandle|
                final(self).connected(f2, t2) <==> (old(self).connected(f2, t2)
                    && f2.instance != instance && t2.instance != instance),
            forall|q: PortHandle|
                final(self).staged(q) == if old(self).source_of(q) is Some && (old(
                    self,
                ).source_of(q)->0.instance == instance || q.instance == instance) {
                    None::<PortValue>
                } else {
                    old(self).staged(q)
                },
    {
        let ghost orig = *self;
        let ghost scrub = |q: PortHandle| orig.source_of(q) is Some && (orig.source_of(
            q,
        )->0.instance == instance || q.instance == instance);

        // scrub the staged values of the inputs whose feeding edge goes away
        let mut kept_inputs: Vec<(PortHandle, PortValue)> = Vec::new();
        let mut i: usize = 0;
        while i < self.inputs.len()
            invariant
                i <= self.inputs@.len(),
                kept_inputs@ == staged_drop(self.inputs@.take(i as int), scrub),
                *self == orig,
            decreases self.inputs@.len() - i,
        {
            let e = self.inputs[i];
            proof {
                assert(self.inputs@.take(i + 1).drop_last() =~= self.inputs@.take(i as int));
                assert(self.inputs@.take(i + 1).last() == self.inputs@[i as int]);
            }
            let dropped = match self.input_connection(e.0) {
                Option::Some(f) => f.instance.id == instance.id || e.0.instance.id == instance.id,
                Option::None => false,
            };
            proof {
                assert(dropped == scrub(e.0));
            }
            if !dropped {
                kept_inputs.push(e);
            }
            i = i + 1;
        }
        proof {
            assert(self.inputs@.take(self.inputs@.len() as int) =~= self.inputs@);
        }
        self.inputs = kept_inputs;

        // drop every edge touching the instance
        let ghost pred = |e: (PortHandle, PortHandle)| e.0.instance == instance || e.1.instance
            == instance;
        let src = &self.connections;
        let mut kept: Vec<(PortHandle, PortHandle)> = Vec::new();
        let mut j: usize = 0;
        while j < src.len()
            invariant
                j <= src@.len(),
                kept@ == edges_drop(src@.take(j as int), pred),
            decreases src@.len() - j,
        {
            let e = src[j];
            proof {
                assert(src@.take(j + 1).drop_last() =~= src@.take(j as int));
                assert(src@.take(j + 1).last() == src@[j as int]);
            }
            if !(e.0.instance.id == instance.id || e.1.instance.id == instance.id) {
                kept.push(e);
            }
            j = j + 1;
        }
        proof {
            assert(src@.take(src@.len() as int) =~= src@);
        }
        self.connections = kept;
        proof {
            lemma_edges_drop_wf(orig.edges(), pred);
            assert(dag(self.dep_pairs())) by {
                crate::topo::lemma_dag_subset(
                    dep_pairs_of(edges_drop(orig.edges(), pred)),
                    orig.dep_pairs(),
                );
            }
        }
        proof {
            assert forall|ci: int| 0 <= ci < self.conversions_view().len()
                implies (#[trigger] self.conversions_view()[ci]).wf() by {
                assert(orig.conversions_view()[ci].wf());
            }
        }
        self.update_instances_processing_order();
        proof {
            assert forall|f2: PortHandle, t2: PortHandle|
                final(self).connected(f2, t2) <==> (orig.connected(f2, t2) && f2.instance
                    != instance && t2.instance != instance) by {
                lemma_edges_drop_contains(orig.edges(), pred, (f2, t2));
            }
            assert forall|q: PortHandle|
                final(self).staged(q) == if orig.source_of(q) is Some && (orig.source_of(
                    q,
                )->0.instance == instance || q.instance == instance) {
                    None::<PortValue>
                } else {
                    orig.staged(q)
                } by {
                lemma_staged_lookup_drop(orig.inputs@, scrub, q);
            }
        }
    }

}

/// Connecting two ports of one instance is always rejected with
/// `SameInstance`; `connect` then leaves the graph unchanged.
pub proof fn lemma_connect_same_instance(io: Io, from: PortHandle, to: PortHandle)
    requires
        from.instance == to.instance,
    ensures
        io.spec_can_connect(from, to) == ConnectResult::Reject(ConnectResultErr::SameInstance),
{
}

/// Connecting to an input that already has a source `c` answers
/// `Replace(c, to)`; `connect` then removes `c -> to`, inserts `from -> to`,
/// and `to` keeps exactly one incoming edge.
pub proof fn lemma_connect_replaces(io: Io, from: PortHandle, to: PortHandle, c: PortHandle)
    requires
        from.instance != to.instance,
        io.spec_compatible(from, to),
        io.source_of(to) == Some(c),
    ensures
        io.spec_can_connect(from, to) == ConnectResult::Warn(
            ConnectResultWarn::Replace(c, to),
        ),
{
}

/// In a well-formed graph every input has at most one incoming edge.
pub proof fn lemma_one_source(io: Io, f1: PortHandle, f2: PortHandle, t: PortHandle)
    requires
        io.at_most_one_source(),
        io.connected(f1, t),
        io.connected(f2, t),
    ensures
        f1 == f2,
{
    lemma_connected_source(io, f1, t);
    lemma_connected_source(io, f2, t);
}

/// An input no edge leads into has no source.
pub proof fn lemma_no_edges_no_source(io: Io, q: PortHandle)
    requires
        forall|f: PortHandle| !io.connected(f, q),
    ensures
        io.source_of(q) is None,
{
    lemma_source_contains(io.edges(), q);
    if io.source_of(q) is Some {
        let f = choose|f: PortHandle| io.edges().contains((f, q));
        assert(io.connected(f, q));
    }
}

/// An input with nothing staged reads its declared default: disconnecting or
/// removing the source clears the staged value, so the next read falls back.
pub proof fn lemma_unstaged_input_reads_default(
    io: Io,
    instance: InstanceHandle,
    id: PortId,
    default: PortValue,
)
    requires
        io.staged(PortHandle { id, instance }) is None,
    ensures
        io.spec_get_input(instance, id, default) == default,
{
}

/// A staged value of a foreign type with a registered conversion is read
/// through that conversion.
pub proof fn lemma_converted_input_read(
    io: Io,
    instance: InstanceHandle,
    id: PortId,
    default: PortValue,
    v: PortValue,
    c: Conversion,
)
    requires
        io.staged(PortHandle { id, instance }) == Some(v),
        v.value_type() != id.value_type,
        io.spec_find_conversion(v.value_type(), id.value_type, id) == Some(c),
    ensures
        io.spec_get_input(instance, id, default) == c.spec_apply(v),
{
}

/// A registered adapter found for a key maps exactly that key's types, as
/// long as every registered entry is coherent.
pub proof fn lemma_found_conversion_types(io: Io, from: ValueType, to: ValueType, id: PortId)
    requires
        io.conversions_wf(),
        io.spec_find_conversion(from, to, id) is Some,
    ensures
        io.spec_find_conversion(from, to, id)->0.from_type() == from,
        io.spec_find_conversion(from, to, id)->0.to_type() == to,
{
    if conv_lookup(io.conversions_view(), from, to, Some(id)) is Some {
        lemma_conv_lookup_types(io.conversions_view(), from, to, Some(id));
    } else {
        lemma_conv_lookup_types(io.conversions_view(), from, to, None);
    }
}

/// Type safety of reads: whatever was staged, a read through `get_input`
/// yields a value of the port's declared type, because a foreign value is
/// either coerced by a coherent adapter or replaced by the declared default.
pub proof fn lemma_get_input_typed(
    io: Io,
    instance: InstanceHandle,
    id: PortId,
    default: PortValue,
)
    requires
        io.conversions_wf(),
        default.value_type() == id.value_type,
    ensures
        io.spec_get_input(instance, id, default).value_type() == id.value_type,
{
    let p = PortHandle { id, instance };
    match io.staged(p) {
        None => {},
        Some(v) => {
            if v.value_type() != id.value_type {
                match io.spec_find_conversion(v.value_type(), id.value_type, id) {
                    Some(c) => {
                        lemma_found_conversion_types(io, v.value_type(), id.value_type, id);
                    },
                    None => {},
                }
            }
        },
    }
}

/// A lookup hit in a coherent registry carries the key's types.
proof fn lemma_conv_lookup_types(
    s: Seq<ConversionEntry>,
    from: ValueType,
    to: ValueType,
    target: Option<PortId>,
)
    requires
        forall|i: int| 0 <= i < s.len() ==> (#[trigger] s[i]).wf(),
        conv_lookup(s, from, to, target) is Some,
    ensures
        conv_lookup(s, from, to, target)->0.from_type() == from,
        conv_lookup(s, from, to, target)->0.to_type() == to,
    decreases s.len(),
{
    if s.len() == 0 {
    } else if s.last().from == from && s.last().to == to && s.last().target == target {
        assert(s[s.len() - 1].wf());
    } else {
        assert forall|i: int| 0 <= i < s.drop_last().len()
            implies (#[trigger] s.drop_last()[i]).wf() by {
            assert(s[i].wf());
        }
        lemma_conv_lookup_types(s.drop_last(), from, to, target);
    }
}

/// Ports of different value types connect exactly when a conversion is
/// registered: with one the request is accepted (or warns of a replacement),
/// without one it is rejected as incompatible.
pub proof fn lemma_conversion_upgrades(io: Io, from: PortHandle, to: PortHandle)
    requires
        from.instance != to.instance,
        from.id.value_type != to.id.value_type,
    ensures
        io.spec_find_conversion(from.id.value_type, to.id.value_type, to.id) is Some
            ==> !(io.spec_can_connect(from, to) is Reject),
        io.spec_find_conversion(from.id.value_type, to.id.value_type, to.id) is None
            ==> io.spec_can_connect(from, to) == ConnectResult::Reject(
            ConnectResultErr::InCompatible,
        ),
{
}

/// Structural equality of two port handles.
fn port_handle_eq(a: &PortHandle, b: &PortHandle) -> (r: bool)
    ensures
        r <==> *a == *b,
{
    a.id.id == b.id.id && a.id.value_type == b.id.value_type && a.instance.id == b.instance.id
}

/// Graph well-formedness only reads the edges, the adapters and the cached
/// order, so it carries over between two values that agree on them.
pub proof fn lemma_wf_same_graph(a: Io, b: Io)
    requires
        a.wf(),
        b.connections@ == a.connections@,
        b.conversions@ == a.conversions@,
        b.processing_order@ == a.processing_order@,
    ensures
        b.wf(),
{
    assert(b.dep_pairs() =~= a.dep_pairs());
    assert(b.order_view() == a.order_view());
    assert forall|i: int| 0 <= i < b.conversions_view().len()
        implies (#[trigger] b.conversions_view()[i]).wf() by {
        assert(a.conversions_view()[i].wf());
    }
}

/// The staged entries whose key satisfies `p`, dropped.
pub open spec fn staged_drop(
    s: Seq<(PortHandle, PortValue)>,
    p: spec_fn(PortHandle) -> bool,
) -> Seq<(PortHandle, PortValue)>
    decreases s.len(),
{
    if s.len() == 0 {
        s
    } else if p(s.last().0) {
        staged_drop(s.drop_last(), p)
    } else {
        staged_drop(s.drop_last(), p).push(s.last())
    }
}

/// Scrubbing keys by a predicate empties their lookups and leaves the rest.
pub proof fn lemma_staged_lookup_drop(
    s: Seq<(PortHandle, PortValue)>,
    p: spec_fn(PortHandle) -> bool,
    q: PortHandle,
)
    ensures
        p(q) ==> staged_lookup(staged_drop(s, p), q) is None,
        !p(q) ==> staged_lookup(staged_drop(s, p), q) == staged_lookup(s, q),
    decreases s.len(),
{
    if s.len() == 0 {
    } else {
        lemma_staged_lookup_drop(s.drop_last(), p, q);
        if !p(s.last().0) {
            let w = staged_drop(s, p);
            assert(w == staged_drop(s.drop_last(), p).push(s.last()));
            assert(w.drop_last() =~= staged_drop(s.drop_last(), p));
            assert(w.last() == s.last());
        }
    }
}

/// The edges satisfying `p`, dropped.
pub open spec fn edges_drop(
    s: Seq<(PortHandle, PortHandle)>,
    p: spec_fn((PortHandle, PortHandle)) -> bool,
) -> Seq<(PortHandle, PortHandle)>
    decreases s.len(),
{
    if s.len() == 0 {
        s
    } else if p(s.last()) {
        edges_drop(s.drop_last(), p)
    } else {
        edges_drop(s.drop_last(), p).push(s.last())
    }
}

/// Dropping edges keeps exactly the edges that do not satisfy `p`.
pub proof fn lemma_edges_drop_contains(
    s: Seq<(PortHandle, PortHandle)>,
    p: spec_fn((PortHandle, PortHandle)) -> bool,
    e: (PortHandle, PortHandle),
)
    ensures
        edges_drop(s, p).contains(e) <==> (s.contains(e) && !p(e)),
    decreases s.len(),
{
    let w = edges_drop(s, p);
    if s.len() == 0 {
    } else {
        lemma_edges_drop_contains(s.drop_last(), p, e);
        let w0 = edges_drop(s.drop_last(), p);
        if p(s.last()) {
            if s.contains(e) && !p(e) {
                let i = choose|i: int| 0 <= i < s.len() && s[i] == e;
                assert(i < s.len() - 1);
                assert(s.drop_last()[i] == e);
                assert(s.drop_last().contains(e));
            }
        } else {
            assert(w == w0.push(s.last()));
            if w.contains(e) {
                let i = choose|i: int| 0 <= i < w.len() && w[i] == e;
                if i < w0.len() {
                    assert(w0.contains(e));
                    assert(s.drop_last().contains(e));
                    let j = choose|j: int| 0 <= j < s.drop_last().len() && s.drop_last()[j] == e;
                    assert(s[j] == e);
                    assert(s.contains(e));
                } else {
                    assert(e == s.last());
                    assert(s.contains(e));
                }
            }
            if s.contains(e) && !p(e) {
                if e == s.last() {
                    assert(w[w0.len() as int] == e);
                    assert(w.contains(e));
                } else {
                    let i = choose|i: int| 0 <= i < s.len() && s[i] == e;
                    assert(i < s.len() - 1);
                    assert(s.drop_last()[i] == e);
                    assert(s.drop_last().contains(e));
                    assert(w0.contains(e));
                    let j = choose|j: int| 0 <= j < w0.len() && w0[j] == e;
                    assert(w[j] == e);
                    assert(w.contains(e));
                }
            }
        }
    }
}

/// Every kept edge is one of the original edges.
pub proof fn lemma_edges_drop_index(
    s: Seq<(PortHandle, PortHandle)>,
    p: spec_fn((PortHandle, PortHandle)) -> bool,
)
    ensures
        forall|i: int|
            0 <= i < edges_drop(s, p).len() ==> s.contains(#[trigger] edges_drop(s, p)[i])
                && !p(edges_drop(s, p)[i]),
    decreases s.len(),
{
    let w = edges_drop(s, p);
    if s.len() == 0 {
    } else {
        lemma_edges_drop_index(s.drop_last(), p);
        let w0 = edges_drop(s.drop_last(), p);
        assert forall|i: int| 0 <= i < w.len() implies s.contains(#[trigger] w[i]) && !p(w[i]) by {
            if p(s.last()) {
                assert(w == w0);
                assert(s.drop_last().contains(w[i]));
                let j = choose|j: int| 0 <= j < s.drop_last().len() && s.drop_last()[j] == w[i];
                assert(s[j] == w[i]);
            } else {
                assert(w == w0.push(s.last()));
                if i < w0.len() {
                    assert(w[i] == w0[i]);
                    assert(s.drop_last().contains(w0[i]));
                    let j = choose|j: int|
                        0 <= j < s.drop_last().len() && s.drop_last()[j] == w0[i];
                    assert(s[j] == w[i]);
                } else {
                    assert(w[i] == s.last());
                }
            }
        }
    }
}

/// Dropping edges keeps the one-source-per-input invariant.
pub proof fn lemma_edges_drop_distinct(
    s: Seq<(PortHandle, PortHandle)>,
    p: spec_fn((PortHandle, PortHandle)) -> bool,
)
    requires
        forall|i: int, j: int| 0 <= i < j < s.len() ==> (#[trigger] s[i]).1 != (#[trigger] s[j]).1,
    ensures
        forall|i: int, j: int|
            0 <= i < j < edges_drop(s, p).len() ==> (#[trigger] edges_drop(s, p)[i]).1 != (
            #[trigger] edges_drop(s, p)[j]).1,
    decreases s.len(),
{
    let w = edges_drop(s, p);
    if s.len() == 0 {
    } else {
        assert forall|i: int, j: int| 0 <= i < j < s.drop_last().len()
            implies (#[trigger] s.drop_last()[i]).1 != (#[trigger] s.drop_last()[j]).1 by {
            assert(s[i] == s.drop_last()[i] && s[j] == s.drop_last()[j]);
        }
        lemma_edges_drop_distinct(s.drop_last(), p);
        lemma_edges_drop_index(s.drop_last(), p);
        let w0 = edges_drop(s.drop_last(), p);
        if !p(s.last()) {
            assert(w == w0.push(s.last()));
            assert forall|i: int, j: int| 0 <= i < j < w.len()
                implies (#[trigger] w[i]).1 != (#[trigger] w[j]).1 by {
                if j == w0.len() {
                    assert(w[j] == s.last());
                    assert(s.drop_last().contains(w0[i]));
                    let k = choose|k: int|
                        0 <= k < s.drop_last().len() && s.drop_last()[k] == w0[i];
                    assert(s[k] == w[i]);
                    assert(s[k].1 != s.last().1);
                } else {
                    assert(w[i] == w0[i] && w[j] == w0[j]);
                }
            }
        }
    }
}

/// An input has a source exactly when some edge targets it, and that source
/// edge is among the edges.
pub proof fn lemma_source_contains(s: Seq<(PortHandle, PortHandle)>, q: PortHandle)
    ensures
        source_lookup(s, q) is Some <==> exists|f: PortHandle| s.contains((f, q)),
        source_lookup(s, q) is Some ==> s.contains((source_lookup(s, q)->0, q)),
    decreases s.len(),
{
    if s.len() == 0 {
        if exists|f: PortHandle| s.contains((f, q)) {
            let f = choose|f: PortHandle| s.contains((f, q));
        }
    } else {
        lemma_source_contains(s.drop_last(), q);
        if s.last().1 == q {
            assert(s.contains((s.last().0, q))) by {
                assert(s[s.len() - 1] == (s.last().0, q));
            }
        } else {
            if source_lookup(s.drop_last(), q) is Some {
                let f = source_lookup(s.drop_last(), q)->0;
                assert(s.drop_last().contains((f, q)));
                let i = choose|i: int|
                    0 <= i < s.drop_last().len() && s.drop_last()[i] == (f, q);
                assert(s[i] == (f, q));
                assert(s.contains((f, q)));
            }
            if exists|f: PortHandle| s.contains((f, q)) {
                let f = choose|f: PortHandle| s.contains((f, q));
                let i = choose|i: int| 0 <= i < s.len() && s[i] == (f, q);
                assert(i < s.len() - 1) by {
                    if i == s.len() - 1 {
                        assert(s.last().1 == q);
                    }
                }
                assert(s.drop_last()[i] == (f, q));
                assert(s.drop_last().contains((f, q)));
            }
        }
    }
}

/// The staged entries with key `k` dropped.
pub open spec fn staged_without(s: Seq<(PortHandle, PortValue)>, k: PortHandle) -> Seq<
    (PortHandle, PortValue),
>
    decreases s.len(),
{
    if s.len() == 0 {
        s
    } else if s.last().0 == k {
        staged_without(s.drop_last(), k)
    } else {
        staged_without(s.drop_last(), k).push(s.last())
    }
}

/// Copies a vector of plain values.
fn copy_vec<T: Copy>(v: &Vec<T>) -> (r: Vec<T>)
    ensures
        r@ == v@,
{
    let mut out: Vec<T> = Vec::new();
    let mut i: usize = 0;
    while i < v.len()
        invariant
            i <= v@.len(),
            out@ == v@.take(i as int),
        decreases v@.len() - i,
    {
        out.push(v[i]);
        i = i + 1;
        proof {
            assert(out@ =~= v@.take(i as int));
        }
    }
    proof {
        assert(v@.take(v@.len() as int) =~= v@);
    }
    out
}

/// Drops the staged entry for `k`.
fn staged_remove(inputs: &mut Vec<(PortHandle, PortValue)>, k: PortHandle)
    ensures
        final(inputs)@ == staged_without(old(inputs)@, k),
{
    let ghost orig = inputs@;
    let mut out: Vec<(PortHandle, PortValue)> = Vec::new();
    let mut i: usize = 0;
    while i < inputs.len()
        invariant
            i <= orig.len(),
            inputs@ == orig,
            out@ == staged_without(orig.take(i as int), k),
        decreases orig.len() - i,
    {
        let e = inputs[i];
        proof {
            assert(orig.take(i + 1).drop_last() =~= orig.take(i as int));
            assert(orig.take(i + 1).last() == orig[i as int]);
        }
        if !port_handle_eq(&e.0, &k) {
            out.push(e);
        }
        i = i + 1;
    }
    proof {
        assert(orig.take(orig.len() as int) =~= orig);
    }
    *inputs = out;
}

/// Whether a list of port handles holds one.
fn vec_contains_port(v: &Vec<PortHandle>, q: &PortHandle) -> (r: bool)
    ensures
        r <==> v@.contains(*q),
{
    let mut i: usize = 0;
    while i < v.len()
        invariant
            i <= v@.len(),
            forall|j: int| 0 <= j < i ==> v@[j] != *q,
        decreases v@.len() - i,
    {
        if port_handle_eq(&v[i], q) {
            return true;
        }
        i = i + 1;
    }
    false
}

/// Membership in a pushed handle list.
proof fn lemma_push_contains_port(s: Seq<PortHandle>, x: PortHandle, y: PortHandle)
    ensures
        s.push(x).contains(y) <==> (s.contains(y) || y == x),
{
    if s.push(x).contains(y) {
        let i = choose|i: int| 0 <= i < s.push(x).len() && s.push(x)[i] == y;
        if i < s.len() {
            assert(s[i] == y);
        }
    }
    if s.contains(y) {
        let i = choose|i: int| 0 <= i < s.len() && s[i] == y;
        assert(s.push(x)[i] == y);
    }
    if y == x {
        assert(s.push(x)[s.len() as int] == y);
    }
}

/// With one source per input, a connected pair determines the source.
pub proof fn lemma_connected_source(io: Io, f: PortHandle, t: PortHandle)
    requires
        io.at_most_one_source(),
        io.connected(f, t),
    ensures
        io.source_of(t) == Some(f),
{
    lemma_source_contains(io.edges(), t);
    let src = io.source_of(t)->0;
    let i = choose|i: int| 0 <= i < io.edges().len() && io.edges()[i] == (f, t);
    let j = choose|j: int| 0 <= j < io.edges().len() && io.edges()[j] == (src, t);
    if i != j {
        assert(io.edges()[i].1 == io.edges()[j].1);
    }
}

/// Dropping edges preserves the graph-shape invariants and can only shrink
/// the instance dependencies.
proof fn lemma_edges_drop_wf(
    s: Seq<(PortHandle, PortHandle)>,
    p: spec_fn((PortHandle, PortHandle)) -> bool,
)
    requires
        forall|i: int, j: int| 0 <= i < j < s.len() ==> (#[trigger] s[i]).1 != (#[trigger] s[j]).1,
        forall|i: int| 0 <= i < s.len() ==> (#[trigger] s[i]).0.instance != s[i].1.instance,
    ensures
        forall|i: int, j: int|
            0 <= i < j < edges_drop(s, p).len() ==> (#[trigger] edges_drop(s, p)[i]).1 != (
            #[trigger] edges_drop(s, p)[j]).1,
        forall|i: int|
            0 <= i < edges_drop(s, p).len() ==> (#[trigger] edges_drop(s, p)[i]).0.instance
                != edges_drop(s, p)[i].1.instance,
        dep_pairs_of(edges_drop(s, p)).subset_of(dep_pairs_of(s)),
{
    let w = edges_drop(s, p);
    lemma_edges_drop_distinct(s, p);
    lemma_edges_drop_index(s, p);
    assert forall|i: int| 0 <= i < w.len()
        implies (#[trigger] w[i]).0.instance != w[i].1.instance by {
        assert(s.contains(w[i]));
        let k = choose|k: int| 0 <= k < s.len() && s[k] == w[i];
    }
    assert forall|d: (u64, u64)| #[trigger] dep_pairs_of(w).contains(d)
        implies dep_pairs_of(s).contains(d) by {
        let i = choose|i: int|
            0 <= i < w.len() && (#[trigger] w[i]).0.instance.id == d.0 && w[i].1.instance.id
                == d.1;
        assert(s.contains(w[i]));
        let k = choose|k: int| 0 <= k < s.len() && s[k] == w[i];
        assert((s[k]).0.instance.id == d.0 && s[k].1.instance.id == d.1);
    }
}

/// The lookup of a scrubbed key is empty.
proof fn lemma_staged_lookup_without_none(s: Seq<(PortHandle, PortValue)>, k: PortHandle)
    ensures
        staged_lookup(staged_without(s, k), k) is None,
    decreases s.len(),
{
    if s.len() == 0 {
    } else {
        lemma_staged_lookup_without_none(s.drop_last(), k);
        if s.last().0 != k {
            let w = staged_without(s, k);
            assert(w == staged_without(s.drop_last(), k).push(s.last()));
            assert(w.drop_last() =~= staged_without(s.drop_last(), k));
            assert(w.last() == s.last());
        }
    }
}

/// Replaces the staged entry for `k` by `(k, v)`, dropping any stale entry.
fn staged_upsert(inputs: &mut Vec<(PortHandle, PortValue)>, k: PortHandle, v: PortValue)
    ensures
        final(inputs)@ == staged_without(old(inputs)@, k).push((k, v)),
        forall|q: PortHandle|
            staged_lookup(final(inputs)@, q) == if q == k {
                Some(v)
            } else {
                staged_lookup(old(inputs)@, q)
            },
{
    let ghost orig = inputs@;
    let mut out: Vec<(PortHandle, PortValue)> = Vec::new();
    let mut i: usize = 0;
    while i < inputs.len()
        invariant
            i <= orig.len(),
            inputs@ == orig,
            out@ == staged_without(orig.take(i as int), k),
        decreases orig.len() - i,
    {
        let e = inputs[i];
        proof {
            assert(orig.take(i + 1).drop_last() =~= orig.take(i as int));
            assert(orig.take(i + 1).last() == orig[i as int]);
        }
        if !port_handle_eq(&e.0, &k) {
            out.push(e);
        }
        i = i + 1;
    }
    proof {
        assert(orig.take(orig.len() as int) =~= orig);
    }
    out.push((k, v));
    proof {
        assert forall|q: PortHandle|
            staged_lookup(out@, q) == if q == k {
                Some(v)
            } else {
                staged_lookup(orig, q)
            } by {
            assert(out@.drop_last() =~= staged_without(orig, k));
            assert(out@.last() == (k, v));
            if q != k {
                lemma_staged_lookup_without(orig, k, q);
            }
        }
    }
    *inputs = out;
}

/// Dropping the entries keyed `k` leaves every other lookup unchanged.
proof fn lemma_staged_lookup_without(s: Seq<(PortHandle, PortValue)>, k: PortHandle, q: PortHandle)
    requires
        q != k,
    ensures
        staged_lookup(staged_without(s, k), q) == staged_lookup(s, q),
    decreases s.len(),
{
    if s.len() == 0 {
    } else {
        lemma_staged_lookup_without(s.drop_last(), k, q);
        if s.last().0 != k {
            let w = staged_without(s, k);
            assert(w == staged_without(s.drop_last(), k).push(s.last()));
            assert(w.drop_last() =~= staged_without(s.drop_last(), k));
            assert(w.last() == s.last());
        }
    }
}

impl Default for Io {
    fn default() -> (r: Self)
        ensures
            r.edges() =~= Seq::<(PortHandle, PortHandle)>::empty(),
            r.inputs@ =~= Seq::<(PortHandle, PortValue)>::empty(),
            r.conversions_view() =~= Seq::<ConversionEntry>::empty(),
            r.wf(),
    {
        Self::new()
    }
}

} // verus!
