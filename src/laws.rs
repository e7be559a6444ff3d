//! Properties of the engine that hold across calls, proved from the contracts
//! of the evaluate and record phases.
use vstd::prelude::*;
use crate::graph::{Graph, OutputRef};
use crate::value::ProtosValueType;
use crate::resource::Resource;
use crate::evaluator::{Evaluation, TraceEvent, lookup, producers_finished, frame_kept, claimed};
use crate::node_eval::{Slot, owns, slot_same};
use crate::resources::Resources;
use crate::recorder::{Recording, producers_in};

verus! {

/// Memoisation: within one traversal the own work of a node starts at most
/// once, however many inputs its outputs fan out to; and once a consumer of
/// one of its outputs has started, it started exactly once.
pub proof fn law_evaluated_once(g: &Graph, ev: &Evaluation, consumer: usize, k: int)
    requires
        ev.inv(g),
        0 <= consumer < g.nodes@.len(),
        0 <= k < g.nodes@[consumer as int].inputs@.len(),
        g.source(consumer as int, k) is Some,
        ev.trace@.contains(TraceEvent::Started(consumer)),
    ensures
        ({
            let p = g.source(consumer as int, k)->Some_0.node;
            &&& exists|i: int| 0 <= i < ev.trace@.len() && ev.trace@[i] == TraceEvent::Started(p)
            &&& forall|i: int, j: int| 0 <= i < ev.trace@.len() && 0 <= j < ev.trace@.len()
                && ev.trace@[i] == TraceEvent::Started(p) && ev.trace@[j] == TraceEvent::Started(p) ==> i == j
        }),
{
    let t = ev.trace@;
    let p = g.source(consumer as int, k)->Some_0.node;
    let c = choose|c: int| 0 <= c < t.len() && t[c] == TraceEvent::Started(consumer);
    assert(t[c] matches TraceEvent::Started(v) && v == consumer);
    assert(producers_finished(g, consumer as int, t.take(c)));
    assert(t.take(c).contains(TraceEvent::Finished(p)));
    let f = choose|f: int| 0 <= f < t.take(c).len() && t.take(c)[f] == TraceEvent::Finished(p);
    assert(t[f] == TraceEvent::Finished(p));
    assert(t.take(f).contains(TraceEvent::Started(p)));
    let s = choose|s: int| 0 <= s < t.take(f).len() && t.take(f)[s] == TraceEvent::Started(p);
    assert(t[s] == TraceEvent::Started(p));
    assert forall|i: int, j: int| 0 <= i < t.len() && 0 <= j < t.len()
        && t[i] == TraceEvent::Started(p) && t[j] == TraceEvent::Started(p) implies i == j by {
        if i < j {
            assert(t[i] != t[j]);
        } else if j < i {
            assert(t[j] != t[i]);
        }
    }
}

/// Order: when the own work of a node starts, every node it reads from has
/// already finished, having started before that; so along a chain A -> B -> C
/// A runs fully before B starts, and B fully before C starts.
pub proof fn law_dependencies_first(g: &Graph, ev: &Evaluation, consumer: usize, k: int, i: int)
    requires
        ev.inv(g),
        0 <= i < ev.trace@.len(),
        ev.trace@[i] == TraceEvent::Started(consumer),
        0 <= consumer < g.nodes@.len(),
        0 <= k < g.nodes@[consumer as int].inputs@.len(),
        g.source(consumer as int, k) is Some,
    ensures
        ({
            let p = g.source(consumer as int, k)->Some_0.node;
            exists|s: int, f: int| 0 <= s < f < i
                && ev.trace@[s] == TraceEvent::Started(p)
                && ev.trace@[f] == TraceEvent::Finished(p)
        }),
{
    let t = ev.trace@;
    let p = g.source(consumer as int, k)->Some_0.node;
    assert(t[i] matches TraceEvent::Started(v) && v == consumer);
    assert(producers_finished(g, consumer as int, t.take(i)));
    assert(t.take(i).contains(TraceEvent::Finished(p)));
    let f = choose|f: int| 0 <= f < t.take(i).len() && t.take(i)[f] == TraceEvent::Finished(p);
    assert(t[f] == TraceEvent::Finished(p));
    assert(t.take(f).contains(TraceEvent::Started(p)));
    let s = choose|s: int| 0 <= s < t.take(f).len() && t.take(f)[s] == TraceEvent::Started(p);
    assert(t[s] == TraceEvent::Started(p));
}

/// Order of the record phase: a node is recorded after every node it reads
/// from, the same dependency-first order as the evaluate phase.
pub proof fn law_record_dependencies_first(g: &Graph, rec: &Recording, i: int, k: int)
    requires
        rec.inv(g),
        0 <= i < rec.order@.len(),
        0 <= k < g.nodes@[rec.order@[i] as int].inputs@.len(),
        g.source(rec.order@[i] as int, k) is Some,
    ensures
        exists|j: int| 0 <= j < i && rec.order@[j] == g.source(rec.order@[i] as int, k)->Some_0.node,
{
    let n = rec.order@[i] as int;
    assert(producers_in(g, n, rec.order@.take(i)));
    let p = g.source(n, k)->Some_0.node;
    assert(rec.order@.take(i).contains(p));
    let j = choose|j: int| 0 <= j < rec.order@.take(i).len() && rec.order@.take(i)[j] == p;
    assert(rec.order@[j] == p);
}

/// A successful record phase covers everything its root depends on: every
/// node read by a recorded node was recorded too.
pub proof fn law_recorded_closed(g: &Graph, rec: &Recording, n: usize, k: int)
    requires
        rec.inv(g),
        n < g.nodes@.len(),
        rec.finished@[n as int],
        0 <= k < g.nodes@[n as int].inputs@.len(),
        g.source(n as int, k) is Some,
    ensures
        rec.finished@[g.source(n as int, k)->Some_0.node as int],
{
    assert(rec.order@.contains(n));
    let i = choose|i: int| 0 <= i < rec.order@.len() && rec.order@[i] == n;
    law_record_dependencies_first(g, rec, i, k);
    let j = choose|j: int| 0 <= j < i && rec.order@[j] == g.source(n as int, k)->Some_0.node;
    assert(rec.order@[j] < g.nodes@.len() && rec.finished@[rec.order@[j] as int]);
}

/// Failure containment: while a node has not evaluated successfully, no node
/// reading from it starts its own work.
pub proof fn law_failure_contained(g: &Graph, ev: &Evaluation, consumer: usize, k: int)
    requires
        ev.inv(g),
        0 <= consumer < g.nodes@.len(),
        0 <= k < g.nodes@[consumer as int].inputs@.len(),
        g.source(consumer as int, k) is Some,
        !ev.done@[g.source(consumer as int, k)->Some_0.node as int],
    ensures
        !ev.trace@.contains(TraceEvent::Started(consumer)),
{
    let t = ev.trace@;
    let p = g.source(consumer as int, k)->Some_0.node;
    if t.contains(TraceEvent::Started(consumer)) {
        let c = choose|c: int| 0 <= c < t.len() && t[c] == TraceEvent::Started(consumer);
        assert(t[c] matches TraceEvent::Started(v) && v == consumer);
    assert(producers_finished(g, consumer as int, t.take(c)));
        let f = choose|f: int| 0 <= f < t.take(c).len() && t.take(c)[f] == TraceEvent::Finished(p);
        assert(t[f] == TraceEvent::Finished(p));
    }
}

/// Failure containment for resources: while a node's own work has not
/// started, every resource it owns is exactly as it was, unless a node whose
/// work did start owns it too (nodes built by `build_node` never share).
pub proof fn law_unstarted_node_untouched(g: &Graph, old_res: &Resources, new_res: &Resources, old_ev: &Evaluation,
    new_ev: &Evaluation, n: int, s: Slot)
    requires
        frame_kept(g, old_res, new_res, old_ev, new_ev),
        0 <= n < g.nodes@.len(),
        owns(g, old_res, n, s),
        !claimed(g, old_res, old_ev, new_ev, s),
    ensures
        slot_same(old_res, new_res, s),
{
    reveal(frame_kept);
}

/// Fan-out consistency: a cached output keeps its value for the rest of the
/// traversal, so every input connected to it receives the same value; for a
/// resource that is the same arena index, not a copy.
pub proof fn law_fan_out_same_value(
    earlier: &Evaluation,
    later: &Evaluation,
    o: OutputRef,
    first: ProtosValueType,
    second: ProtosValueType,
)
    requires
        later.extends(earlier),
        lookup(earlier.cache.entries@, o) == Some(first),
        lookup(later.cache.entries@, o) == Some(second),
    ensures
        first == second,
{
}

/// Dirty tracking: after a successful build a resource does not need
/// another, so a second `update_data` with no change in between leaves it
/// exactly as it is (see the contracts of `update_data`).
pub proof fn law_built_needs_no_build<Desc, Data>(r: Resource<Desc, Data>)
    requires
        r.data.is_some(),
        !r.dirty,
    ensures
        !r.needs_build(),
{
}

} // verus!
