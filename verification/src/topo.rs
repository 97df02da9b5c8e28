#![verifier::loop_isolation(false)]

//! Topological ordering of instance dependencies.
//!
//! The sorting collection comes from the `topological_sort` crate; the rack
//! trusts a small set of wrappers over it and proves the ordering loop around
//! them: the computed passes respect every dependency, and the computation
//! succeeds exactly on acyclic dependency sets.

use vstd::prelude::*;
use vstd::set_lib::lemma_len_subset;
use topological_sort::TopologicalSort;

verus! {

#[verifier::external_type_specification]
#[verifier::external_body]
#[verifier::reject_recursive_types(T)]
pub struct ExTopologicalSort<T>(TopologicalSort<T>);

/// The items a sort currently holds.
pub uninterp spec fn topo_elems(t: TopologicalSort<u64>) -> Set<u64>;

/// The dependency links a sort currently holds, as `(prec, succ)` pairs.
pub uninterp spec fn topo_edges(t: TopologicalSort<u64>) -> Set<(u64, u64)>;

/// The items with no remaining predecessor link.
pub open spec fn topo_ready(elems: Set<u64>, edges: Set<(u64, u64)>) -> Set<u64> {
    elems.filter(|e: u64| forall|p: u64| !edges.contains((p, e)))
}

/// Relies on TopologicalSort::new: a fresh sort holds no items and no links.
#[verifier::external_body]
fn topo_new() -> (t: TopologicalSort<u64>)
    ensures
        topo_elems(t) == Set::<u64>::empty(),
        topo_edges(t) == Set::<(u64, u64)>::empty(),
{
    TopologicalSort::new()
}

/// Relies on TopologicalSort::add_dependency: registers the link
/// `prec -> succ` and makes sure both endpoints are held; registering a link
/// twice changes nothing.
#[verifier::external_body]
fn topo_add_dependency(t: &mut TopologicalSort<u64>, prec: u64, succ: u64)
    ensures
        topo_elems(*final(t)) == topo_elems(*old(t)).insert(prec).insert(succ),
        topo_edges(*final(t)) == topo_edges(*old(t)).insert((prec, succ)),
{
    t.add_dependency(prec, succ);
}

/// Relies on TopologicalSort::pop_batch: removes and returns exactly the
/// items that no held link points into, in arbitrary order without
/// duplicates, and drops the links leaving them.
#[verifier::external_body]
fn topo_pop_batch(t: &mut TopologicalSort<u64>) -> (r: Vec<u64>)
    ensures
        r@.no_duplicates(),
        r@.to_set() == topo_ready(topo_elems(*old(t)), topo_edges(*old(t))),
        topo_elems(*final(t)) == topo_elems(*old(t)).difference(r@.to_set()),
        topo_edges(*final(t)) == topo_edges(*old(t)).filter(
            |e: (u64, u64)| !r@.to_set().contains(e.0),
        ),
{
    t.pop_batch()
}

/// Relies on TopologicalSort::is_empty: true exactly when no item is held.
#[verifier::external_body]
fn topo_is_empty(t: &TopologicalSort<u64>) -> (r: bool)
    ensures
        r <==> topo_elems(*t) =~= Set::<u64>::empty(),
{
    t.is_empty()
}

/// Every endpoint of a dependency set.
pub open spec fn vertex_set(edges: Set<(u64, u64)>) -> Set<u64> {
    Set::new(|v: u64| exists|w: u64| edges.contains((v, w)) || edges.contains((w, v)))
}

/// Whether some pass contains `x`.
pub open spec fn in_passes(passes: Seq<Seq<u64>>, x: u64) -> bool {
    exists|i: int| 0 <= i < passes.len() && #[trigger] passes[i].contains(x)
}

/// Index of the first pass containing `x`; the number of passes if none does.
pub open spec fn pass_of(passes: Seq<Seq<u64>>, x: u64) -> int
    decreases passes.len(),
{
    if passes.len() == 0 {
        0
    } else if passes[0].contains(x) {
        0
    } else {
        1 + pass_of(passes.drop_first(), x)
    }
}

/// A ranking that strictly increases along every edge.
pub open spec fn rank_ok(r: Map<u64, int>, edges: Set<(u64, u64)>) -> bool {
    forall|a: u64, b: u64| #[trigger] edges.contains((a, b)) ==> {
        &&& r.dom().contains(a)
        &&& r.dom().contains(b)
        &&& r[a] < r[b]
    }
}

/// A dependency set is acyclic exactly when some ranking orders every edge.
pub open spec fn dag(edges: Set<(u64, u64)>) -> bool {
    exists|r: Map<u64, int>| #[trigger] rank_ok(r, edges)
}

/// A subset of an acyclic dependency set is acyclic: the same ranking
/// orders its edges.
pub proof fn lemma_dag_subset(small: Set<(u64, u64)>, big: Set<(u64, u64)>)
    requires
        dag(big),
        small.subset_of(big),
    ensures
        dag(small),
{
    let r = choose|r: Map<u64, int>| #[trigger] rank_ok(r, big);
    assert(rank_ok(r, small));
}

/// Two items that each depend on the other allow no ranking: a mutual edge
/// pair always makes the dependency set cyclic.
pub proof fn lemma_two_cycle_not_dag(edges: Set<(u64, u64)>, a: u64, b: u64)
    requires
        edges.contains((a, b)),
        edges.contains((b, a)),
    ensures
        !dag(edges),
{
    if dag(edges) {
        let r = choose|r: Map<u64, int>| #[trigger] rank_ok(r, edges);
        assert(r[a] < r[b]);
        assert(r[b] < r[a]);
    }
}

/// The passes cover exactly the endpoints of `edges`, repeat nothing, and put
/// the source of every edge in a strictly earlier pass than its target.
pub open spec fn valid_order(passes: Seq<Seq<u64>>, edges: Set<(u64, u64)>) -> bool {
    &&& forall|x: u64| in_passes(passes, x) <==> vertex_set(edges).contains(x)
    &&& forall|i: int, j: int, x: u64|
        0 <= i < passes.len() && 0 <= j < passes.len() && i != j && #[trigger] passes[i].contains(x)
            ==> !(#[trigger] passes[j].contains(x))
    &&& forall|i: int| 0 <= i < passes.len() ==> (#[trigger] passes[i]).no_duplicates()
    &&& forall|a: u64, b: u64| #[trigger] edges.contains((a, b)) ==> {
        &&& in_passes(passes, a)
        &&& in_passes(passes, b)
        &&& pass_of(passes, a) < pass_of(passes, b)
    }
}

/// The view of a list of passes.
pub open spec fn passes_view(passes: Seq<Vec<u64>>) -> Seq<Seq<u64>> {
    passes.map_values(|v: Vec<u64>| v@)
}

proof fn lemma_pass_of_bounds(passes: Seq<Seq<u64>>, x: u64)
    ensures
        in_passes(passes, x) ==> {
            &&& 0 <= pass_of(passes, x) < passes.len()
            &&& passes[pass_of(passes, x)].contains(x)
        },
        !in_passes(passes, x) ==> pass_of(passes, x) == passes.len(),
    decreases passes.len(),
{
    if passes.len() == 0 {
    } else if passes[0].contains(x) {
        assert(in_passes(passes, x));
    } else {
        let rest = passes.drop_first();
        lemma_pass_of_bounds(rest, x);
        assert forall|i: int| 0 <= i < rest.len() implies rest[i] == passes[i + 1] by {}
        if in_passes(rest, x) {
            let i = choose|i: int| 0 <= i < rest.len() && #[trigger] rest[i].contains(x);
            assert(passes[i + 1].contains(x));
            assert(in_passes(passes, x));
        }
        if in_passes(passes, x) {
            let i = choose|i: int| 0 <= i < passes.len() && #[trigger] passes[i].contains(x);
            assert(i != 0);
            assert(rest[i - 1].contains(x));
            assert(in_passes(rest, x));
        }
    }
}

proof fn lemma_pass_of_push(passes: Seq<Seq<u64>>, v: Seq<u64>, x: u64)
    ensures
        in_passes(passes, x) ==> pass_of(passes.push(v), x) == pass_of(passes, x),
        !in_passes(passes, x) && v.contains(x) ==> pass_of(passes.push(v), x) == passes.len(),
        !in_passes(passes, x) && !v.contains(x) ==> pass_of(passes.push(v), x) == passes.len() + 1,
        in_passes(passes.push(v), x) <==> in_passes(passes, x) || v.contains(x),
    decreases passes.len(),
{
    lemma_pass_of_bounds(passes, x);
    lemma_pass_of_bounds(passes.push(v), x);
    if passes.len() == 0 {
        assert(passes.push(v)[0] == v);
        if v.contains(x) {
            assert(in_passes(passes.push(v), x));
        } else {
            assert(!in_passes(passes.push(v), x)) by {
                assert forall|i: int| 0 <= i < passes.push(v).len()
                    implies !(#[trigger] passes.push(v)[i].contains(x)) by {
                    assert(passes.push(v)[i] == v);
                }
            }
        }
    } else {
        let rest = passes.drop_first();
        lemma_pass_of_push(rest, v, x);
        assert(passes.push(v).drop_first() =~= rest.push(v));
        lemma_pass_of_bounds(rest, x);
        lemma_pass_of_bounds(rest.push(v), x);
        // relate in_passes across the first element
        assert(passes.push(v)[0] == passes[0]);
        if passes[0].contains(x) {
            assert(in_passes(passes, x));
            assert(in_passes(passes.push(v), x));
        } else {
            assert(in_passes(passes, x) <==> in_passes(rest, x)) by {
                if in_passes(passes, x) {
                    let i = choose|i: int|
                        0 <= i < passes.len() && #[trigger] passes[i].contains(x);
                    assert(i != 0);
                    assert(rest[i - 1] == passes[i]);
                    assert(in_passes(rest, x));
                }
                if in_passes(rest, x) {
                    let i = choose|i: int| 0 <= i < rest.len() && #[trigger] rest[i].contains(x);
                    assert(passes[i + 1] == rest[i]);
                    assert(in_passes(passes, x));
                }
            }
            assert(in_passes(passes.push(v), x) <==> in_passes(rest.push(v), x)) by {
                if in_passes(passes.push(v), x) {
                    let i = choose|i: int|
                        0 <= i < passes.push(v).len() && #[trigger] passes.push(v)[i].contains(x);
                    assert(i != 0);
                    assert(rest.push(v)[i - 1] == passes.push(v)[i]);
                    assert(in_passes(rest.push(v), x));
                }
                if in_passes(rest.push(v), x) {
                    let i = choose|i: int|
                        0 <= i < rest.push(v).len() && #[trigger] rest.push(v)[i].contains(x);
                    assert(passes.push(v)[i + 1] == rest.push(v)[i]);
                    assert(in_passes(passes.push(v), x));
                }
            }
        }
    }
}

/// A finite nonempty set whose elements all carry a rank has a minimum.
proof fn lemma_min_rank_exists(s: Set<u64>, r: Map<u64, int>)
    requires
        s.finite(),
        !(s =~= Set::<u64>::empty()),
        forall|x: u64| s.contains(x) ==> r.dom().contains(x),
    ensures
        exists|m: u64| #[trigger] s.contains(m) && forall|x: u64| s.contains(x) ==> r[m] <= r[x],
    decreases s.len(),
{
    let a = s.choose();
    assert(s.contains(a));
    let rest = s.remove(a);
    if rest =~= Set::<u64>::empty() {
        assert forall|x: u64| s.contains(x) implies r[a] <= r[x] by {
            if x != a {
                assert(rest.contains(x));
            }
        }
        assert(s.contains(a) && forall|x: u64| s.contains(x) ==> r[a] <= r[x]);
    } else {
        lemma_min_rank_exists(rest, r);
        let m0 = choose|m: u64|
            #[trigger] rest.contains(m) && forall|x: u64| rest.contains(x) ==> r[m] <= r[x];
        let m = if r[a] <= r[m0] { a } else { m0 };
        assert forall|x: u64| s.contains(x) implies r[m] <= r[x] by {
            if x != a {
                assert(rest.contains(x));
            }
        }
        assert(s.contains(m) && forall|x: u64| s.contains(x) ==> r[m] <= r[x]);
    }
}

/// Kahn-style topological sort of a dependency set: peels off the items
/// nothing remaining precedes, pass by pass.  Succeeds exactly on acyclic
/// dependency sets; on success the passes respect every dependency.
pub fn sort_passes(pairs: &Vec<(u64, u64)>) -> (r: Result<Vec<Vec<u64>>, &'static str>)
    ensures
        r is Ok ==> valid_order(passes_view(r->Ok_0@), pairs@.to_set()),
        r is Ok <==> dag(pairs@.to_set()),
{
    let edge_set = Ghost(pairs@.to_set());
    let mut topo = topo_new();
    let mut i: usize = 0;
    while i < pairs.len()
        invariant
            i <= pairs.len(),
            topo_edges(topo) =~= pairs@.take(i as int).to_set(),
            topo_elems(topo) =~= vertex_set(pairs@.take(i as int).to_set()),
            topo_elems(topo).finite(),
            topo_edges(topo).finite(),
        decreases pairs.len() - i,
    {
        let pair = pairs[i];
        let ghost old_edges = topo_edges(topo);
        let ghost old_elems = topo_elems(topo);
        topo_add_dependency(&mut topo, pair.0, pair.1);
        proof {
            assert(pairs@.take(i + 1).drop_last() =~= pairs@.take(i as int));
            assert(pairs@.take(i + 1).to_set() =~= old_edges.insert((pair.0, pair.1))) by {
                let s0 = pairs@.take(i as int);
                let s1 = pairs@.take(i + 1);
                assert(s1 =~= s0.push(pair));
                assert forall|e: (u64, u64)| s1.contains(e)
                    implies old_edges.insert((pair.0, pair.1)).contains(e) by {
                    let j = choose|j: int| 0 <= j < s1.len() && s1[j] == e;
                    if j < s0.len() {
                        assert(s0[j] == e);
                        assert(s0.contains(e));
                    } else {
                        assert(e == pair);
                    }
                }
                assert forall|e: (u64, u64)| old_edges.insert((pair.0, pair.1)).contains(e)
                    implies s1.contains(e) by {
                    if old_edges.contains(e) {
                        assert(s0.contains(e));
                        let j = choose|j: int| 0 <= j < s0.len() && s0[j] == e;
                        assert(s1[j] == e);
                    } else {
                        assert(s1[s0.len() as int] == pair);
                    }
                }
            }
            assert(topo_elems(topo) =~= vertex_set(pairs@.take(i + 1).to_set())) by {
                let newe = old_edges.insert((pair.0, pair.1));
                assert forall|v: u64| vertex_set(newe).contains(v)
                    implies old_elems.insert(pair.0).insert(pair.1).contains(v) by {
                    let w = choose|w: u64| newe.contains((v, w)) || newe.contains((w, v));
                    if old_edges.contains((v, w)) || old_edges.contains((w, v)) {
                        assert(vertex_set(old_edges).contains(v));
                    }
                }
                assert forall|v: u64| old_elems.insert(pair.0).insert(pair.1).contains(v)
                    implies vertex_set(newe).contains(v) by {
                    if old_elems.contains(v) {
                        let w = choose|w: u64|
                            old_edges.contains((v, w)) || old_edges.contains((w, v));
                        assert(newe.contains((v, w)) || newe.contains((w, v)));
                    } else if v == pair.0 {
                        assert(newe.contains((pair.0, pair.1)));
                    } else {
                        assert(newe.contains((pair.0, pair.1)));
                    }
                }
            }
        }
        i = i + 1;
    }
    proof {
        assert(pairs@.take(pairs@.len() as int) =~= pairs@);
    }

    let ghost all_edges: Set<(u64, u64)> = pairs@.to_set();
    let ghost all_vertices: Set<u64> = vertex_set(all_edges);

    let mut passes: Vec<Vec<u64>> = Vec::new();

    proof {
        assert(topo_edges(topo) =~= all_edges.filter(
            |e: (u64, u64)| topo_elems(topo).contains(e.0) && topo_elems(topo).contains(e.1),
        )) by {
            assert forall|e: (u64, u64)| #[trigger] all_edges.contains(e)
                implies all_vertices.contains(e.0) && all_vertices.contains(e.1) by {
                assert(all_edges.contains((e.0, e.1)));
            }
        }
        assert(topo_elems(topo).subset_of(all_vertices));
        assert forall|x: u64| in_passes(passes_view(passes@), x)
            <==> (all_vertices.contains(x) && !topo_elems(topo).contains(x)) by {
            if in_passes(passes_view(passes@), x) {
                let i = choose|i: int|
                    0 <= i < passes_view(passes@).len()
                        && #[trigger] passes_view(passes@)[i].contains(x);
            }
            if all_vertices.contains(x) {
                assert(topo_elems(topo).contains(x));
            }
        }
    }

    loop
        invariant
            topo_elems(topo).finite(),
            topo_elems(topo).subset_of(all_vertices),
            // the held links are the original ones among the remaining items
            topo_edges(topo) =~= all_edges.filter(
                |e: (u64, u64)| topo_elems(topo).contains(e.0) && topo_elems(topo).contains(e.1),
            ),
            // done items are exactly the vertices no longer held
            forall|x: u64| in_passes(passes_view(passes@), x)
                <==> (all_vertices.contains(x) && !topo_elems(topo).contains(x)),
            // no item sits in two passes, no pass repeats an item
            forall|i: int, j: int, x: u64|
                0 <= i < passes@.len() && 0 <= j < passes@.len() && i != j
                    && #[trigger] passes_view(passes@)[i].contains(x)
                    ==> !(#[trigger] passes_view(passes@)[j].contains(x)),
            forall|i: int| 0 <= i < passes@.len()
                ==> (#[trigger] passes_view(passes@)[i]).no_duplicates(),
            // every dependency whose target is done has its source done earlier
            forall|a: u64, b: u64| #[trigger] all_edges.contains((a, b))
                && !topo_elems(topo).contains(b) ==> {
                &&& !topo_elems(topo).contains(a)
                &&& pass_of(passes_view(passes@), a) < pass_of(passes_view(passes@), b)
            },
        decreases topo_elems(topo).len(),
    {
        if topo_is_empty(&topo) {
            break;
        }
        let ghost pre_elems = topo_elems(topo);
        let ghost pre_edges = topo_edges(topo);
        let batch = topo_pop_batch(&mut topo);
        if batch.is_empty() {
            proof {
                // every remaining item has a remaining predecessor, so any
                // ranking would have to descend forever: no ranking exists
                assert(topo_ready(pre_elems, pre_edges) =~= batch@.to_set());
                assert forall|r: Map<u64, int>| !rank_ok(r, all_edges) by {
                    if rank_ok(r, all_edges) {
                        assert forall|x: u64| pre_elems.contains(x)
                            implies r.dom().contains(x) by {
                            assert(!topo_ready(pre_elems, pre_edges).contains(x));
                            let p = choose|p: u64| pre_edges.contains((p, x));
                            assert(all_edges.contains((p, x)));
                        }
                        lemma_min_rank_exists(pre_elems, r);
                        let m = choose|m: u64|
                            #[trigger] pre_elems.contains(m)
                                && forall|x: u64| pre_elems.contains(x) ==> r[m] <= r[x];
                        assert(!topo_ready(pre_elems, pre_edges).contains(m));
                        let p = choose|p: u64| pre_edges.contains((p, m));
                        assert(pre_elems.contains(p));
                        assert(all_edges.contains((p, m)));
                        assert(r[p] < r[m]);
                        assert(r[m] <= r[p]);
                    }
                }
                assert(!dag(all_edges));
            }
            return Err("cyclic dependency");
        }
        let ghost ready = batch@.to_set();
        let ghost old_passes = passes_view(passes@);
        passes.push(batch);
        proof {
            let newp = passes_view(passes@);
            assert(newp =~= old_passes.push(passes@.last()@));
            assert(newp.last() == passes@.last()@);
            assert(newp.len() == old_passes.len() + 1);
            assert(newp[old_passes.len() as int].to_set() == ready) by {
                assert(newp[old_passes.len() as int] == passes@.last()@);
            }
            // the new remaining set
            let new_elems = pre_elems.difference(ready);
            assert(topo_elems(topo) == new_elems);
            // ready items were remaining
            assert forall|x: u64| ready.contains(x) implies pre_elems.contains(x) by {
                assert(topo_ready(pre_elems, pre_edges).contains(x));
            }
            // strict decrease for termination
            assert(new_elems.len() < pre_elems.len()) by {
                let w = batch@[0];
                assert(ready.contains(w));
                assert(pre_elems.contains(w));
                assert(!new_elems.contains(w));
                assert(new_elems.subset_of(pre_elems));
                lemma_len_subset(new_elems.insert(w), pre_elems);
                assert(new_elems.insert(w).len() == new_elems.len() + 1);
            }
            // edge filter is stable: edges into ready items cannot exist
            assert(topo_edges(topo) =~= all_edges.filter(
                |e: (u64, u64)| new_elems.contains(e.0) && new_elems.contains(e.1),
            )) by {
                let kept = topo_edges(topo);
                assert forall|e: (u64, u64)| #[trigger] kept.contains(e)
                    implies all_edges.contains(e) && new_elems.contains(e.0)
                        && new_elems.contains(e.1) by {
                    assert(pre_edges.contains(e) && !ready.contains(e.0));
                    assert(pre_elems.contains(e.0) && pre_elems.contains(e.1));
                    if ready.contains(e.1) {
                        assert(topo_ready(pre_elems, pre_edges).contains(e.1));
                        assert(!pre_edges.contains((e.0, e.1)));
                        assert((e.0, e.1) == e);
                    }
                }
                assert forall|e: (u64, u64)|
                    #[trigger] all_edges.contains(e) && new_elems.contains(e.0)
                        && new_elems.contains(e.1)
                    implies kept.contains(e) by {
                    assert(pre_elems.contains(e.0) && pre_elems.contains(e.1));
                    assert(pre_edges.contains(e));
                    assert(!ready.contains(e.0));
                }
            }
            // membership in the grown passes
            assert forall|x: u64| in_passes(newp, x)
                <==> (all_vertices.contains(x) && !new_elems.contains(x)) by {
                lemma_pass_of_push(old_passes, newp.last(), x);
                assert(newp.last().contains(x) <==> ready.contains(x)) by {
                    assert(newp.last().to_set() == ready);
                    if newp.last().to_set().contains(x) {
                        assert(newp.last().contains(x));
                    }
                }
            }
            // disjointness of the new pass from the old ones
            assert forall|i: int, j: int, x: u64|
                0 <= i < newp.len() && 0 <= j < newp.len() && i != j
                    && #[trigger] newp[i].contains(x)
                    implies !(#[trigger] newp[j].contains(x)) by {
                if i < old_passes.len() && j < old_passes.len() {
                    assert(old_passes[i].contains(x));
                } else if i == old_passes.len() {
                    // x is in the new pass, so it was still remaining
                    assert(newp.last().contains(x));
                    assert(ready.contains(x));
                    assert(!in_passes(old_passes, x));
                    assert(old_passes[j] == newp[j]);
                    if newp[j].contains(x) {
                        assert(in_passes(old_passes, x));
                    }
                } else {
                    assert(j == old_passes.len());
                    assert(old_passes[i].contains(x));
                    assert(in_passes(old_passes, x));
                    assert(!pre_elems.contains(x));
                    if newp[j].contains(x) {
                        assert(ready.contains(x));
                        assert(pre_elems.contains(x));
                    }
                }
            }
            assert(newp.last().no_duplicates()) by {
                assert(newp.last() == passes@.last()@);
            }
            // ordering: a dependency into a newly done item comes from a done item
            assert forall|a: u64, b: u64| #[trigger] all_edges.contains((a, b))
                && !new_elems.contains(b) implies {
                &&& !new_elems.contains(a)
                &&& pass_of(newp, a) < pass_of(newp, b)
            } by {
                lemma_pass_of_push(old_passes, newp.last(), a);
                lemma_pass_of_push(old_passes, newp.last(), b);
                lemma_pass_of_bounds(old_passes, a);
                lemma_pass_of_bounds(old_passes, b);
                assert(newp.last().contains(a) <==> ready.contains(a)) by {
                    assert(newp.last().to_set() == ready);
                    if newp.last().to_set().contains(a) {
                        assert(newp.last().contains(a));
                    }
                }
                assert(newp.last().contains(b) <==> ready.contains(b)) by {
                    assert(newp.last().to_set() == ready);
                    if newp.last().to_set().contains(b) {
                        assert(newp.last().contains(b));
                    }
                }
                assert(all_vertices.contains(a) && all_vertices.contains(b));
                if !pre_elems.contains(b) {
                    // b was already done before this batch
                    assert(!pre_elems.contains(a));
                    assert(pass_of(old_passes, a) < pass_of(old_passes, b));
                    assert(in_passes(old_passes, a) && in_passes(old_passes, b));
                } else {
                    // b is newly done, so it is in the ready batch
                    assert(ready.contains(b));
                    assert(topo_ready(pre_elems, pre_edges).contains(b));
                    // a cannot still be remaining: the link would block b
                    if pre_elems.contains(a) {
                        assert(pre_edges.contains((a, b)));
                    }
                    assert(!pre_elems.contains(a));
                    assert(!new_elems.contains(a));
                    assert(in_passes(old_passes, a));
                    assert(!in_passes(old_passes, b)) by {
                        if in_passes(old_passes, b) {
                            assert(!pre_elems.contains(b));
                        }
                    }
                    assert(!ready.contains(a)) by {
                        if ready.contains(a) {
                            assert(pre_elems.contains(a));
                        }
                    }
                    assert(pass_of(newp, a) == pass_of(old_passes, a));
                    assert(pass_of(newp, b) == old_passes.len());
                    lemma_pass_of_bounds(old_passes, a);
                }
            }
        }
    }

    proof {
        // the loop ended with nothing remaining: the order is complete
        let passes_seq = passes_view(passes@);
        assert(valid_order(passes_seq, all_edges)) by {
            assert forall|a: u64, b: u64| #[trigger] all_edges.contains((a, b)) implies {
                &&& in_passes(passes_seq, a)
                &&& in_passes(passes_seq, b)
                &&& pass_of(passes_seq, a) < pass_of(passes_seq, b)
            } by {
                assert(all_vertices.contains(a) && all_vertices.contains(b));
                assert(!topo_elems(topo).contains(b));
            }
        }
        // a completed order is itself a ranking, so the set is acyclic
        let rank = Map::<u64, int>::new(
            |x: u64| all_vertices.contains(x),
            |x: u64| pass_of(passes_seq, x),
        );
        assert(rank_ok(rank, all_edges));
        assert(dag(all_edges));
    }
    Ok(passes)
}

} // verus!
