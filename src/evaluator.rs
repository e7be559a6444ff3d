//! The evaluate phase: a demand-driven walk of the graph from a root node,
//! evaluating each dependency before its dependents, each node at most once,
//! and memoising every output in an [`OutputsCache`].
use vstd::prelude::*;
use crate::graph::{Graph, OutputRef};
use crate::value::ProtosValueType;
use crate::error::EvalError;
use crate::resources::Resources;
use crate::gpu::GpuContext;
use crate::nodes::{output_decls, output_sig};
use crate::node_eval::{arena_kept, evaluate_kind, kind_eval, Outputs, Slot, owns, slot_same, only_own_changed};

verus! {

pub struct CacheEntry {
    pub output: OutputRef,
    pub value: ProtosValueType,
}

/// The values computed for output sockets during one traversal; a later
/// entry for the same socket hides an earlier one.
pub struct OutputsCache {
    pub entries: Vec<CacheEntry>,
}

/// The value cached for `key`, if any.
pub open spec fn lookup(entries: Seq<CacheEntry>, key: OutputRef) -> Option<ProtosValueType>
    decreases entries.len(),
{
    if entries.len() == 0 {
        None
    } else if entries.last().output == key {
        Some(entries.last().value)
    } else {
        lookup(entries.drop_last(), key)
    }
}

pub proof fn lemma_lookup_push(s: Seq<CacheEntry>, e: CacheEntry, key: OutputRef)
    ensures
        lookup(s.push(e), key) == (if e.output == key { Some(e.value) } else { lookup(s, key) }),
{
    assert(s.push(e).drop_last() =~= s);
}

pub proof fn lemma_lookup_found(s: Seq<CacheEntry>, key: OutputRef)
    requires
        lookup(s, key) is Some,
    ensures
        exists|i: int| 0 <= i < s.len() && (#[trigger] s[i]).output == key,
    decreases s.len(),
{
    if s.last().output == key {
        assert(s[s.len() - 1].output == key);
    } else {
        lemma_lookup_found(s.drop_last(), key);
        let i = choose|i: int| 0 <= i < s.drop_last().len() && (#[trigger] s.drop_last()[i]).output == key;
        assert(s[i] == s.drop_last()[i]);
    }
}

impl OutputsCache {
    pub fn new() -> (r: Self)
        ensures
            r.entries@.len() == 0,
    {
        OutputsCache { entries: Vec::new() }
    }

    pub fn get(&self, key: OutputRef) -> (r: Option<ProtosValueType>)
        ensures
            r == lookup(self.entries@, key),
    {
        let mut i = self.entries.len();
        assert(self.entries@.subrange(0, i as int) =~= self.entries@);
        while i > 0
            invariant
                0 <= i <= self.entries@.len(),
                lookup(self.entries@, key) == lookup(self.entries@.subrange(0, i as int), key),
            decreases i,
        {
            let ghost prefix = self.entries@.subrange(0, i as int);
            assert(prefix.drop_last() =~= self.entries@.subrange(0, i - 1));
            if self.entries[i - 1].output == key {
                return Some(self.entries[i - 1].value.copy());
            }
            i = i - 1;
        }
        proof {
            assert(self.entries@.subrange(0, 0).len() == 0);
        }
        None
    }

    pub fn insert(&mut self, key: OutputRef, value: ProtosValueType)
        ensures
            final(self).entries@ == old(self).entries@.push(CacheEntry { output: key, value }),
    {
        self.entries.push(CacheEntry { output: key, value });
    }
}

/// A step of the evaluate phase: a node's own work begins (all its inputs
/// are resolved), or a node is finished (its outputs are cached).
#[derive(Copy, Clone, Debug, PartialEq, Eq, Structural)]
pub enum TraceEvent {
    Started(usize),
    Finished(usize),
}

pub open spec fn event_node(e: TraceEvent) -> usize {
    match e {
        TraceEvent::Started(n) => n,
        TraceEvent::Finished(n) => n,
    }
}

/// Every node that input sockets of node `n` are connected to is finished
/// within `prefix`.
pub open spec fn producers_finished(g: &Graph, n: int, prefix: Seq<TraceEvent>) -> bool {
    forall|k: int| 0 <= k < g.nodes@[n].inputs@.len() ==>
        ((#[trigger] g.source(n, k)) matches Some(o) ==> prefix.contains(TraceEvent::Finished(o.node)))
}

/// No input of node `n` is connected.
pub open spec fn unconnected(g: &Graph, n: int) -> bool {
    forall|k: int| 0 <= k < g.nodes@[n].inputs@.len() ==> (#[trigger] g.source(n, k)) is None
}

/// The inline constants of the inputs of node `n`.
pub open spec fn inline_values(g: &Graph, n: int) -> Seq<ProtosValueType> {
    g.nodes@[n].inputs@.map_values(|p: crate::graph::InputParam| p.value)
}

/// `vals` are what the inputs of node `n` resolve to against `cache`: an
/// unconnected input's inline constant, else the cached value of its source.
pub open spec fn resolved(g: &Graph, n: int, vals: Seq<ProtosValueType>, cache: Seq<CacheEntry>) -> bool {
    &&& vals.len() == g.nodes@[n].inputs@.len()
    &&& forall|k: int| 0 <= k < vals.len() ==> match #[trigger] g.source(n, k) {
        None => vals[k] == g.nodes@[n].inputs@[k].value,
        Some(o) => lookup(cache, o) == Some(vals[k]),
    }
}

/// Every output that node `n` produced is in `cache` (the last value given
/// for an output wins).
pub open spec fn outputs_cached(n: usize, outs: Seq<(usize, ProtosValueType)>, cache: Seq<CacheEntry>) -> bool {
    forall|i: int| 0 <= i < outs.len() && (forall|j: int| i < j < outs.len() ==> outs[j].0 != outs[i].0)
        ==> lookup(cache, OutputRef { node: n, output: (#[trigger] outs[i]).0 }) == Some(outs[i].1)
}

/// What node `n`'s own work did: on its resolved inputs, starting from some
/// arena `mid`, it had its kind's outcome `kr`, which decides `r`; on
/// success its outputs are cached.
pub open spec fn node_outcome(g: &Graph, n: int, cache: Seq<CacheEntry>, res: &Resources, r: Result<(), EvalError>,
    width: u32, height: u32) -> bool {
    exists|vals: Seq<ProtosValueType>, mid: Resources, kr: Result<Outputs, EvalError>|
        resolved(g, n, vals, cache) && #[trigger] kind_eval(g, n, vals, &mid, res, kr, width, height)
        && (r is Ok <==> kr is Ok) && (kr is Err ==> r == Err::<(), EvalError>(kr->Err_0))
        && (kr is Ok ==> outputs_cached(n as usize, kr->Ok_0@, cache))
}

/// Node `m`'s own work started between `old` and `new`.
pub open spec fn started_since(old: &Evaluation, new: &Evaluation, m: int) -> bool {
    exists|i: int| old.trace@.len() <= i < new.trace@.len() && new.trace@[i] == TraceEvent::Started(m as usize)
}

/// Some node whose own work started between `old_ev` and `new_ev` owns `s`.
pub open spec fn claimed(g: &Graph, res: &Resources, old_ev: &Evaluation, new_ev: &Evaluation, s: Slot) -> bool {
    exists|m: int| 0 <= m < g.nodes@.len() && #[trigger] started_since(old_ev, new_ev, m) && owns(g, res, m, s)
}

/// Between the two states, only resources owned by nodes whose own work
/// started changed: a node that did not start, and shares its resources
/// with no node that did, has them exactly as they were.
#[verifier::opaque]
pub open spec fn frame_kept(g: &Graph, old_res: &Resources, new_res: &Resources, old_ev: &Evaluation, new_ev: &Evaluation) -> bool {
    forall|s: Slot| !claimed(g, old_res, old_ev, new_ev, s) ==> #[trigger] slot_same(old_res, new_res, s)
}

proof fn lemma_frame_same_res(g: &Graph, r: &Resources, e0: &Evaluation, e1: &Evaluation)
    ensures
        frame_kept(g, r, r, e0, e1),
{
    reveal(frame_kept);
}

proof fn lemma_owns_stable(g: &Graph, r0: &Resources, r1: &Resources, m: int, s: Slot)
    requires
        g.fits(r0),
        r1.same_shape(r0),
        r1.same_attachments(r0),
        0 <= m < g.nodes@.len(),
    ensures
        owns(g, r1, m, s) == owns(g, r0, m, s),
{
    assert(g.nodes@[m].template.handles_in(r0));
}

/// The trace of `new` continues that of `old`.
pub open spec fn trace_extends(new: &Evaluation, old: &Evaluation) -> bool {
    new.trace@.len() >= old.trace@.len() && new.trace@.take(old.trace@.len() as int) == old.trace@
}

proof fn lemma_frame_trans(g: &Graph, r0: &Resources, r1: &Resources, r2: &Resources, e0: &Evaluation, e1: &Evaluation, e2: &Evaluation)
    requires
        frame_kept(g, r0, r1, e0, e1),
        frame_kept(g, r1, r2, e1, e2),
        trace_extends(e1, e0),
        trace_extends(e2, e1),
        g.fits(r0),
        r1.same_shape(r0),
        r1.same_attachments(r0),
        r2.same_shape(r1),
    ensures
        frame_kept(g, r0, r2, e0, e2),
{
    reveal(frame_kept);
    assert forall|s: Slot| !claimed(g, r0, e0, e2, s) implies #[trigger] slot_same(r0, r2, s) by {
        if claimed(g, r0, e0, e1, s) {
            let m = choose|m: int| 0 <= m < g.nodes@.len() && #[trigger] started_since(e0, e1, m) && owns(g, r0, m, s);
            let i = choose|i: int| e0.trace@.len() <= i < e1.trace@.len() && e1.trace@[i] == TraceEvent::Started(m as usize);
            assert(e2.trace@.take(e1.trace@.len() as int)[i] == e2.trace@[i]);
            assert(started_since(e0, e2, m));
        }
        if claimed(g, r1, e1, e2, s) {
            let m = choose|m: int| 0 <= m < g.nodes@.len() && #[trigger] started_since(e1, e2, m) && owns(g, r1, m, s);
            lemma_owns_stable(g, r0, r1, m, s);
            assert(started_since(e0, e2, m));
        }
        assert(slot_same(r0, r1, s));
        assert(slot_same(r1, r2, s));
    }
}

proof fn lemma_kind_frame(g: &Graph, rb: &Resources, ra: &Resources, e0: &Evaluation, e1: &Evaluation, node: int)
    requires
        only_own_changed(g, rb, ra, node),
        started_since(e0, e1, node),
        0 <= node < g.nodes@.len(),
    ensures
        frame_kept(g, rb, ra, e0, e1),
{
    reveal(frame_kept);
    reveal(only_own_changed);
    assert forall|s: Slot| !claimed(g, rb, e0, e1, s) implies #[trigger] slot_same(rb, ra, s) by {
        if owns(g, rb, node, s) {
            assert(claimed(g, rb, e0, e1, s));
        }
    }
}

/// Node `n` has exactly the outputs its kind declares.
pub open spec fn declared_outputs(g: &Graph, n: int) -> bool {
    output_sig(g.nodes@[n].outputs@) == output_decls(g.nodes@[n].template.kind_of())
}

proof fn lemma_output_name(g: &Graph, n: int, o: int)
    requires
        0 <= n < g.nodes@.len(),
        declared_outputs(g, n),
        0 <= o < g.nodes@[n].outputs@.len(),
    ensures
        g.nodes@[n].outputs@[o].name@ == output_decls(g.nodes@[n].template.kind_of())[o].0,
        g.nodes@[n].outputs@.len() == output_decls(g.nodes@[n].template.kind_of()).len(),
{
    assert(output_sig(g.nodes@[n].outputs@)[o] == (g.nodes@[n].outputs@[o].name@, g.nodes@[n].outputs@[o].data_type));
}

/// A node that succeeded and has exactly its kind's outputs cached them all.
proof fn lemma_declared_outputs_cached(g: &Graph, n: int, vals: Seq<ProtosValueType>, mid: &Resources, res: &Resources,
    kr: Result<Outputs, EvalError>, width: u32, height: u32, cache: Seq<CacheEntry>, o: int)
    requires
        0 <= n < g.nodes@.len(),
        declared_outputs(g, n),
        kind_eval(g, n, vals, mid, res, kr, width, height),
        kr is Ok,
        outputs_cached(n as usize, kr->Ok_0@, cache),
        0 <= o < g.nodes@[n].outputs@.len(),
    ensures
        lookup(cache, OutputRef { node: n as usize, output: o as usize }) is Some,
{
    reveal(kind_eval);
    reveal_strlit("VertexShader");
    reveal_strlit("FragmentShader");
    let outs = kr->Ok_0@;
    lemma_output_name(g, n, o);
    let decls = output_decls(g.nodes@[n].template.kind_of());
    if outs.len() == 1 {
        assert(outs[0].0 as int == o) by {
            if (outs[0].0 as int) < o || (outs[0].0 as int) > o {
                lemma_output_name(g, n, outs[0].0 as int);
            }
        }
        assert(lookup(cache, OutputRef { node: n as usize, output: outs[0].0 }) == Some(outs[0].1));
    } else {
        assert(outs.len() == 2);
        lemma_output_name(g, n, 0);
        lemma_output_name(g, n, 1);
        assert(outs[0].0 == 0);
        assert("VertexShader"@[0] != "FragmentShader"@[0]);
        assert("VertexShader"@ != "FragmentShader"@);
        assert(outs[1].0 == 1);
        assert(lookup(cache, OutputRef { node: n as usize, output: outs[1].0 }) == Some(outs[1].1));
        assert(lookup(cache, OutputRef { node: n as usize, output: outs[0].0 }) == Some(outs[0].1));
    }
}

/// How an input reading from node `p` failed: `p` failed (or is still
/// being evaluated, a cycle), or `p` succeeded without filling the output.
pub open spec fn input_failure(g: &Graph, ev: &Evaluation, p: int, e: EvalError) -> bool {
    ||| (e is NodeFailed && ev.visited@[p] && !ev.done@[p])
    ||| (e == EvalError::CycleDetected && ev.visited@[p] && !ev.done@[p])
    ||| (e == EvalError::CachePopulationViolation && ev.done@[p])
}

/// The state of one evaluate traversal.
pub struct Evaluation {
    pub cache: OutputsCache,
    /// The node was reached (its evaluation began).
    pub visited: Vec<bool>,
    /// The node's evaluation succeeded.
    pub done: Vec<bool>,
    pub trace: Vec<TraceEvent>,
    pub width: u32,
    pub height: u32,
}

/// The number of nodes not reached yet.
pub open spec fn count_false(s: Seq<bool>) -> nat
    decreases s.len(),
{
    if s.len() == 0 {
        0
    } else {
        count_false(s.drop_last()) + if s.last() { 0nat } else { 1nat }
    }
}

pub proof fn lemma_count_false_mono(a: Seq<bool>, b: Seq<bool>)
    requires
        a.len() == b.len(),
        forall|i: int| 0 <= i < a.len() && #[trigger] a[i] ==> b[i],
    ensures
        count_false(b) <= count_false(a),
        (exists|j: int| 0 <= j < a.len() && !a[j] && #[trigger] b[j]) ==> count_false(b) < count_false(a),
    decreases a.len(),
{
    if a.len() > 0 {
        let a2 = a.drop_last();
        let b2 = b.drop_last();
        assert forall|i: int| 0 <= i < a2.len() && #[trigger] a2[i] implies b2[i] by {
            assert(a[i]);
        }
        lemma_count_false_mono(a2, b2);
        if exists|j: int| 0 <= j < a.len() && !a[j] && #[trigger] b[j] {
            let j = choose|j: int| 0 <= j < a.len() && !a[j] && #[trigger] b[j];
            if j < a.len() - 1 {
                assert(!a2[j] && b2[j]);
            }
        }
    }
}

impl Evaluation {
    /// A traversal of a graph of `nodes` nodes for a `width` x `height` frame
    /// that has not reached any node yet.
    pub fn new(nodes: usize, width: u32, height: u32) -> (r: Self)
        ensures
            r.visited@ == Seq::new(nodes as nat, |i: int| false),
            r.done@ == Seq::new(nodes as nat, |i: int| false),
            r.trace@.len() == 0,
            r.cache.entries@.len() == 0,
            r.width == width,
            r.height == height,
    {
        let mut visited: Vec<bool> = Vec::new();
        let mut done: Vec<bool> = Vec::new();
        let mut i: usize = 0;
        while i < nodes
            invariant
                0 <= i <= nodes,
                visited@ =~= Seq::new(i as nat, |j: int| false),
                done@ =~= Seq::new(i as nat, |j: int| false),
            decreases nodes - i,
        {
            visited.push(false);
            done.push(false);
            i = i + 1;
        }
        Evaluation { cache: OutputsCache::new(), visited, done, trace: Vec::new(), width, height }
    }

    /// The invariant of a traversal over `g`.
    pub open spec fn inv(&self, g: &Graph) -> bool {
        let n = g.nodes@.len();
        let t = self.trace@;
        &&& self.visited@.len() == n
        &&& self.done@.len() == n
        &&& forall|v: int| 0 <= v < n && #[trigger] self.done@[v] ==> self.visited@[v]
        &&& forall|i: int| 0 <= i < t.len() ==> event_node(#[trigger] t[i]) < n && self.visited@[event_node(t[i]) as int]
        &&& forall|i: int| 0 <= i < t.len() ==> ((#[trigger] t[i]) matches TraceEvent::Finished(v) ==> self.done@[v as int])
        &&& forall|v: int| 0 <= v < n && #[trigger] self.done@[v] ==> t.contains(TraceEvent::Finished(v as usize))
        &&& forall|i: int, j: int| 0 <= i < j < t.len() ==> t[i] != t[j]
        &&& forall|i: int| 0 <= i < t.len() ==> ((#[trigger] t[i]) matches TraceEvent::Finished(v)
            ==> t.take(i).contains(TraceEvent::Started(v)))
        &&& forall|i: int| 0 <= i < t.len() ==> ((#[trigger] t[i]) matches TraceEvent::Started(v)
            ==> v < n && producers_finished(g, v as int, t.take(i)))
        &&& forall|i: int| 0 <= i < self.cache.entries@.len() ==> {
            let o = (#[trigger] self.cache.entries@[i]).output;
            o.node < n && self.done@[o.node as int]
        }
    }

    /// `self` continues `old`: reached and finished nodes stay so, the trace
    /// only grows, and no cached value changes.
    pub open spec fn extends(&self, old: &Evaluation) -> bool {
        &&& self.visited@.len() == old.visited@.len()
        &&& self.done@.len() == old.done@.len()
        &&& forall|v: int| 0 <= v < old.visited@.len() && #[trigger] old.visited@[v] ==> self.visited@[v]
        &&& forall|v: int| 0 <= v < old.done@.len() && #[trigger] old.done@[v] ==> self.done@[v]
        &&& self.trace@.len() >= old.trace@.len()
        &&& self.trace@.take(old.trace@.len() as int) == old.trace@
        &&& forall|key: OutputRef| #[trigger] lookup(old.cache.entries@, key) is Some
            ==> lookup(self.cache.entries@, key) == lookup(old.cache.entries@, key)
        &&& self.width == old.width
        &&& self.height == old.height
    }

    /// Every step added since `old` is about a node that `old` had not reached.
    pub open spec fn new_events_unreached(&self, old: &Evaluation) -> bool {
        forall|i: int| old.trace@.len() <= i < self.trace@.len() ==>
            !old.visited@[event_node(#[trigger] self.trace@[i]) as int]
    }

    /// No step of the trace is about node `v`.
    pub open spec fn untouched(&self, v: int) -> bool {
        forall|i: int| 0 <= i < self.trace@.len() ==> event_node(#[trigger] self.trace@[i]) != v
    }
}

/// A finished node started its own work.
pub proof fn lemma_done_started(g: &Graph, ev: &Evaluation, n: int)
    requires
        ev.inv(g),
        0 <= n < g.nodes@.len(),
        ev.done@[n],
    ensures
        ev.trace@.contains(TraceEvent::Started(n as usize)),
{
    let t = ev.trace@;
    assert(t.contains(TraceEvent::Finished(n as usize)));
    let i = choose|i: int| 0 <= i < t.len() && t[i] == TraceEvent::Finished(n as usize);
    assert(t.take(i).contains(TraceEvent::Started(n as usize)));
    let j = choose|j: int| 0 <= j < t.take(i).len() && t.take(i)[j] == TraceEvent::Started(n as usize);
    assert(t[j] == TraceEvent::Started(n as usize));
}

proof fn lemma_extends_trans(a: &Evaluation, b: &Evaluation, c: &Evaluation)
    requires
        b.extends(a),
        c.extends(b),
    ensures
        c.extends(a),
{
    assert(c.trace@.take(a.trace@.len() as int) =~= b.trace@.take(a.trace@.len() as int));
    assert forall|key: OutputRef| #[trigger] lookup(a.cache.entries@, key) is Some
        implies lookup(c.cache.entries@, key) == lookup(a.cache.entries@, key) by {
        assert(lookup(b.cache.entries@, key) is Some);
    }
}

proof fn lemma_extends_refl(a: &Evaluation)
    ensures
        a.extends(a),
{
    assert(a.trace@.take(a.trace@.len() as int) =~= a.trace@);
}

proof fn lemma_fits_kept(g: &Graph, old_res: &Resources, res: &Resources)
    requires
        g.fits(old_res),
        res.same_shape(old_res),
    ensures
        g.fits(res),
{
    assert forall|n: int| 0 <= n < g.nodes@.len() implies (#[trigger] g.nodes@[n]).template.handles_in(res) by {
        assert(g.nodes@[n].template.handles_in(old_res));
    }
}

proof fn lemma_arena_kept_trans(a: &Resources, b: &Resources, c: &Resources)
    requires
        arena_kept(b, a),
        arena_kept(c, b),
    ensures
        arena_kept(c, a),
{
}

proof fn lemma_arena_kept_refl(a: &Resources)
    requires
        a.wf(),
    ensures
        arena_kept(a, a),
{
}

/// Resolves input `k` of node `node`: the inline constant when nothing is
/// connected; otherwise the producer's cached output, evaluating the
/// producer first when it has not been reached yet.
pub fn evaluate_input_at<G: GpuContext>(
    g: &Graph,
    res: &mut Resources,
    gpu: &mut G,
    ev: &mut Evaluation,
    node: usize,
    k: usize,
) -> (r: Result<ProtosValueType, EvalError>)
    requires
        g.wf(),
        g.fits(old(res)),
        old(res).wf(),
        old(ev).inv(g),
        node < g.nodes@.len(),
        k < g.nodes@[node as int].inputs@.len(),
    ensures
        arena_kept(final(res), old(res)),
        g.fits(final(res)),
        final(ev).inv(g),
        final(ev).extends(old(ev)),
        final(ev).new_events_unreached(old(ev)),
        match g.source(node as int, k as int) {
            None => r == Ok::<ProtosValueType, EvalError>(g.nodes@[node as int].inputs@[k as int].value)
                && *final(ev) == *old(ev) && *final(res) == *old(res),
            Some(o) => {
                &&& (r is Ok ==> final(ev).done@[o.node as int]
                    && lookup(final(ev).cache.entries@, o) == Some(r->Ok_0))
                &&& (lookup(old(ev).cache.entries@, o) matches Some(v) ==>
                    r == Ok::<ProtosValueType, EvalError>(v) && *final(ev) == *old(ev) && *final(res) == *old(res))
                &&& (lookup(old(ev).cache.entries@, o) is None && old(ev).visited@[o.node as int] ==>
                    r == Err::<ProtosValueType, EvalError>(if old(ev).done@[o.node as int] {
                        EvalError::CachePopulationViolation
                    } else {
                        EvalError::CycleDetected
                    }) && *final(ev) == *old(ev) && *final(res) == *old(res))
                &&& (lookup(old(ev).cache.entries@, o) is None && !old(ev).visited@[o.node as int] ==> {
                    &&& final(ev).visited@[o.node as int]
                    &&& (final(ev).done@[o.node as int] ==> match lookup(final(ev).cache.entries@, o) {
                        Some(v) => r == Ok::<ProtosValueType, EvalError>(v),
                        None => r == Err::<ProtosValueType, EvalError>(EvalError::CachePopulationViolation),
                    })
                    &&& (final(ev).done@[o.node as int] ==> node_outcome(g, o.node as int, final(ev).cache.entries@,
                        final(res), Ok::<(), EvalError>(()), old(ev).width, old(ev).height))
                    &&& (final(ev).done@[o.node as int] && declared_outputs(g, o.node as int) ==> r is Ok)
                    &&& (!final(ev).done@[o.node as int] ==> r is Err && r->Err_0 is NodeFailed
                        && (final(ev).trace@.contains(TraceEvent::Started(o.node)) ==> node_outcome(g, o.node as int,
                            final(ev).cache.entries@, final(res), Err::<(), EvalError>(*(r->Err_0->NodeFailed_0)),
                            old(ev).width, old(ev).height)))
                    &&& (!final(ev).done@[o.node as int] && !final(ev).trace@.contains(TraceEvent::Started(o.node)) ==>
                        r is Err && r->Err_0 is NodeFailed && exists|j: int| 0 <= j < g.nodes@[o.node as int].inputs@.len()
                            && (#[trigger] g.source(o.node as int, j)) is Some
                            && input_failure(g, final(ev), g.source(o.node as int, j)->Some_0.node as int, *(r->Err_0->NodeFailed_0)))
                })
            },
        },
        frame_kept(g, old(res), final(res), old(ev), final(ev)),
    decreases count_false(old(ev).visited@), 1nat,
{
    proof {
        lemma_arena_kept_refl(res);
        lemma_extends_refl(ev);
        lemma_frame_same_res(g, res, ev, ev);
    }
    let o = match g.nodes[node].inputs[k].connection {
        None => return Ok(g.nodes[node].inputs[k].value.copy()),
        Some(o) => o,
    };
    match ev.cache.get(o) {
        Some(v) => {
            proof {
                lemma_lookup_found(ev.cache.entries@, o);
                let j = choose|j: int| 0 <= j < ev.cache.entries@.len() && (#[trigger] ev.cache.entries@[j]).output == o;
                assert(ev.done@[o.node as int]);
            }
            return Ok(v);
        },
        None => {},
    }
    if ev.visited[o.node] {
        if ev.done[o.node] {
            return Err(EvalError::CachePopulationViolation);
        } else {
            return Err(EvalError::CycleDetected);
        }
    }
    let ghost ev0 = *ev;
    ev.visited.set(o.node, true);
    proof {
        lemma_count_false_mono(ev0.visited@, ev.visited@);
        assert(ev.visited@[o.node as int]);
        assert(ev.inv(g));
        assert(ev.trace@.take(ev0.trace@.len() as int) =~= ev0.trace@);
        assert(ev.extends(&ev0));
        assert(ev.untouched(o.node as int));
    }
    let ghost ev1 = *ev;
    let ghost res1 = *res;
    let result = evaluate_node(g, res, gpu, ev, o.node);
    proof {
        lemma_frame_same_res(g, &res1, &ev0, &ev1);
        assert(trace_extends(&ev1, &ev0));
        assert(trace_extends(ev, &ev1));
        lemma_frame_trans(g, &res1, &res1, res, &ev0, &ev1, ev);
        lemma_extends_trans(&ev0, &ev1, ev);
        assert forall|i: int| ev0.trace@.len() <= i < ev.trace@.len() implies
            !ev0.visited@[event_node(#[trigger] ev.trace@[i]) as int] by {
            let v = event_node(ev.trace@[i]) as int;
            if v != o.node as int {
                assert(!ev1.visited@[v]);
            }
        }
    }
    match result {
        Ok(()) => {
            proof {
                lemma_done_started(g, ev, o.node as int);
                if declared_outputs(g, o.node as int) {
                    let (vals, mid, kr) = choose|vals: Seq<ProtosValueType>, mid: Resources, kr: Result<Outputs, EvalError>|
                        resolved(g, o.node as int, vals, ev.cache.entries@)
                        && #[trigger] kind_eval(g, o.node as int, vals, &mid, res, kr, old(ev).width, old(ev).height)
                        && (Ok::<(), EvalError>(()) is Ok <==> kr is Ok)
                        && (kr is Err ==> Ok::<(), EvalError>(()) == Err::<(), EvalError>(kr->Err_0))
                        && (kr is Ok ==> outputs_cached(o.node, kr->Ok_0@, ev.cache.entries@));
                    lemma_declared_outputs_cached(g, o.node as int, vals, &mid, res, kr, old(ev).width, old(ev).height,
                        ev.cache.entries@, o.output as int);
                }
            }
            match ev.cache.get(o) {
                Some(v) => {
                    proof {
                        lemma_lookup_found(ev.cache.entries@, o);
                        let j = choose|j: int| 0 <= j < ev.cache.entries@.len() && (#[trigger] ev.cache.entries@[j]).output == o;
                        assert(ev.done@[o.node as int]);
                    }
                    Ok(v)
                },
                None => Err(EvalError::CachePopulationViolation),
            }
        },
        Err(e) => {
            let r = e.wrap();
            proof {
                assert(r == EvalError::NodeFailed(Box::new(e)));
            }
            Err(r)
        },
    }
}

/// Evaluates node `node`, which the caller has just reached: resolves every
/// input in order, then runs the node's own work and caches its outputs.
#[verifier::rlimit(100)]
pub fn evaluate_node<G: GpuContext>(
    g: &Graph,
    res: &mut Resources,
    gpu: &mut G,
    ev: &mut Evaluation,
    node: usize,
) -> (r: Result<(), EvalError>)
    requires
        g.wf(),
        g.fits(old(res)),
        old(res).wf(),
        old(ev).inv(g),
        node < g.nodes@.len(),
        old(ev).visited@[node as int],
        !old(ev).done@[node as int],
        old(ev).untouched(node as int),
    ensures
        arena_kept(final(res), old(res)),
        g.fits(final(res)),
        final(ev).inv(g),
        final(ev).extends(old(ev)),
        forall|i: int| old(ev).trace@.len() <= i < final(ev).trace@.len() ==>
            !old(ev).visited@[event_node(#[trigger] final(ev).trace@[i]) as int]
            || event_node(final(ev).trace@[i]) == node,
        r is Ok <==> final(ev).done@[node as int],
        r is Err && !final(ev).trace@.contains(TraceEvent::Started(node)) ==> exists|k: int|
            0 <= k < g.nodes@[node as int].inputs@.len() && (#[trigger] g.source(node as int, k)) is Some
            && input_failure(g, final(ev), g.source(node as int, k)->Some_0.node as int, r->Err_0),
        unconnected(g, node as int) ==> final(ev).trace@.contains(TraceEvent::Started(node)) && exists|kr: Result<Outputs, EvalError>|
            kind_eval(g, node as int, inline_values(g, node as int), old(res), final(res), kr, old(ev).width, old(ev).height)
            && (r is Ok <==> kr is Ok) && (kr is Err ==> r == Err::<(), EvalError>(kr->Err_0)),
        final(ev).trace@.contains(TraceEvent::Started(node)) ==>
            node_outcome(g, node as int, final(ev).cache.entries@, final(res), r, old(ev).width, old(ev).height),
        frame_kept(g, old(res), final(res), old(ev), final(ev)),
        unconnected(g, node as int) && r is Err ==> final(ev).cache == old(ev).cache,
    decreases count_false(old(ev).visited@), 2nat,
{
    let ghost ev0 = *ev;
    let ghost res0 = *res;
    proof {
        lemma_arena_kept_refl(res);
        lemma_extends_refl(ev);
        lemma_frame_same_res(g, res, ev, ev);
    }
    let n_in = g.nodes[node].inputs.len();
    let mut vals: Vec<ProtosValueType> = Vec::new();
    let mut k: usize = 0;
    while k < n_in
        invariant
            g.wf(),
            g.fits(res),
            res.wf(),
            arena_kept(res, &res0),
            res0 == *old(res),
            ev0 == *old(ev),
            ev.inv(g),
            ev.extends(&ev0),
            forall|i: int| ev0.trace@.len() <= i < ev.trace@.len() ==>
                !ev0.visited@[event_node(#[trigger] ev.trace@[i]) as int],
            count_false(ev.visited@) <= count_false(ev0.visited@),
            node < g.nodes@.len(),
            n_in == g.nodes@[node as int].inputs@.len(),
            0 <= k <= n_in,
            vals@.len() == k,
            ev.visited@[node as int],
            !ev.done@[node as int],
            ev.untouched(node as int),
            forall|j: int| 0 <= j < k ==> ((#[trigger] g.source(node as int, j)) matches Some(o) ==> ev.done@[o.node as int]),
            unconnected(g, node as int) ==> *res == res0 && *ev == ev0
                && vals@ == inline_values(g, node as int).take(k as int),
            g.fits(&res0),
            frame_kept(g, &res0, res, &ev0, ev),
            forall|j: int| 0 <= j < k ==> match #[trigger] g.source(node as int, j) {
                None => vals@[j] == g.nodes@[node as int].inputs@[j].value,
                Some(o) => lookup(ev.cache.entries@, o) == Some(vals@[j]),
            },
        decreases n_in - k,
    {
        let ghost evk = *ev;
        let ghost resk = *res;
        let v = evaluate_input_at(g, res, gpu, ev, node, k);
        proof {
            assert(trace_extends(&evk, &ev0));
            assert(trace_extends(ev, &evk));
            lemma_frame_trans(g, &res0, &resk, res, &ev0, &evk, ev);
            lemma_extends_trans(&ev0, &evk, ev);
            lemma_arena_kept_trans(&res0, &resk, res);
            lemma_count_false_mono(evk.visited@, ev.visited@);
            assert forall|i: int| ev0.trace@.len() <= i < ev.trace@.len() implies
                !ev0.visited@[event_node(#[trigger] ev.trace@[i]) as int] by {
                if i >= evk.trace@.len() {
                    let v = event_node(ev.trace@[i]) as int;
                    assert(!evk.visited@[v]);
                } else {
                    assert(ev.trace@[i] == evk.trace@[i]) by {
                        assert(ev.trace@.take(evk.trace@.len() as int)[i] == ev.trace@[i]);
                    }
                }
            }
            assert forall|i: int| 0 <= i < ev.trace@.len() implies event_node(#[trigger] ev.trace@[i]) != node by {
                if i >= evk.trace@.len() {
                    assert(!evk.visited@[event_node(ev.trace@[i]) as int]);
                } else {
                    assert(ev.trace@.take(evk.trace@.len() as int)[i] == ev.trace@[i]);
                    assert(evk.trace@[i] == ev.trace@[i]);
                }
            }
            if ev.done@[node as int] {
                assert(ev.trace@.contains(TraceEvent::Finished(node)));
                let i = choose|i: int| 0 <= i < ev.trace@.len() && ev.trace@[i] == TraceEvent::Finished(node);
                assert(event_node(ev.trace@[i]) == node);
            }
        }
        let v = match v {
            Ok(v) => v,
            Err(e) => {
                proof {
                    assert(g.source(node as int, k as int) is Some);
                    assert(!ev.trace@.contains(TraceEvent::Started(node))) by {
                        if ev.trace@.contains(TraceEvent::Started(node)) {
                            let i = choose|i: int| 0 <= i < ev.trace@.len() && ev.trace@[i] == TraceEvent::Started(node);
                            assert(event_node(ev.trace@[i]) == node);
                        }
                    }
                }
                return Err(e);
            },
        };
        proof {
            assert forall|j: int| 0 <= j < k implies match #[trigger] g.source(node as int, j) {
                None => vals@[j] == g.nodes@[node as int].inputs@[j].value,
                Some(o) => lookup(ev.cache.entries@, o) == Some(vals@[j]),
            } by {
                if let Some(o) = g.source(node as int, j) {
                    assert(lookup(evk.cache.entries@, o) is Some);
                }
            }
            if unconnected(g, node as int) {
                assert(g.source(node as int, k as int) is None);
                assert(inline_values(g, node as int).take(k + 1) =~= inline_values(g, node as int).take(k as int).push(v));
            }
        }
        vals.push(v);
        k = k + 1;
    }
    proof {
        if unconnected(g, node as int) {
            assert(inline_values(g, node as int).take(n_in as int) =~= inline_values(g, node as int));
        }
    }
    let ghost t0 = ev.trace@;
    let ghost ev_loop = *ev;
    ev.trace.push(TraceEvent::Started(node));
    proof {
        let t = ev.trace@;
        assert forall|i: int| 0 <= i <= t0.len() implies #[trigger] t.take(i) == t0.take(i) by {
            assert(t.take(i) =~= t0.take(i));
        }
        assert(t0.take(t0.len() as int) =~= t0);
        assert forall|kk: int| 0 <= kk < g.nodes@[node as int].inputs@.len() implies
            ((#[trigger] g.source(node as int, kk)) matches Some(o) ==> t0.contains(TraceEvent::Finished(o.node))) by {
            if let Some(o) = g.source(node as int, kk) {
                assert(ev.done@[o.node as int]);
            }
        }
        assert(producers_finished(g, node as int, t.take(t0.len() as int)));
        assert forall|i: int, j: int| 0 <= i < j < t.len() implies t[i] != t[j] by {
            if j == t0.len() {
                assert(event_node(t0[i]) != node);
            } else {
                assert(t0[i] != t0[j]);
            }
        }
        assert forall|v: int| 0 <= v < g.nodes@.len() && #[trigger] ev.done@[v] implies t.contains(TraceEvent::Finished(v as usize)) by {
            assert(t0.contains(TraceEvent::Finished(v as usize)));
            let i = choose|i: int| 0 <= i < t0.len() && t0[i] == TraceEvent::Finished(v as usize);
            assert(t[i] == t0[i]);
        }
        assert forall|i: int| 0 <= i < t.len() implies ((#[trigger] t[i]) matches TraceEvent::Finished(v)
            ==> t.take(i).contains(TraceEvent::Started(v))) by {
            if i < t0.len() {
                assert(t[i] == t0[i]);
            }
        }
        assert forall|i: int| 0 <= i < t.len() implies ((#[trigger] t[i]) matches TraceEvent::Started(v)
            ==> v < g.nodes@.len() && producers_finished(g, v as int, t.take(i))) by {
            if i < t0.len() {
                assert(t[i] == t0[i]);
            }
        }
        assert(ev.inv(g));
        assert(ev.trace@.take(ev0.trace@.len() as int) =~= ev0.trace@) by {
            assert(t0.take(ev0.trace@.len() as int) == ev0.trace@);
            assert(t.take(ev0.trace@.len() as int) == t0.take(ev0.trace@.len() as int));
        }
    }
    let ghost ev_started = *ev;
    let ghost res_before = *res;
    proof {
        assert(resolved(g, node as int, vals@, ev.cache.entries@));
    }
    let outs = evaluate_kind(g, res, gpu, node, &vals, ev.width, ev.height);
    let ghost kr = outs;
    proof {
        assert(kind_eval(g, node as int, vals@, &res_before, res, kr, old(ev).width, old(ev).height));

        lemma_arena_kept_trans(&res0, &res_before, res);
        lemma_fits_kept(g, &res0, res);
        assert(ev.trace@.last() == TraceEvent::Started(node));
        assert(ev.trace@.contains(TraceEvent::Started(node))) by {
            assert(ev.trace@[ev.trace@.len() - 1] == TraceEvent::Started(node));
        }
        if unconnected(g, node as int) {
            assert(kind_eval(g, node as int, inline_values(g, node as int), old(res), res, kr, old(ev).width, old(ev).height));
        }
    }
    let outs = match outs {
        Ok(outs) => outs,
        Err(e) => {
            proof {
                assert(kind_eval(g, node as int, vals@, &res_before, res, kr, old(ev).width, old(ev).height));
                assert(node_outcome(g, node as int, ev.cache.entries@, res, Err::<(), EvalError>(e), old(ev).width, old(ev).height));
                assert(ev.trace@[t0.len() as int] == TraceEvent::Started(node));
                assert(started_since(&ev_loop, ev, node as int));
                lemma_kind_frame(g, &res_before, res, &ev_loop, ev, node as int);
                assert(ev.trace@.take(t0.len() as int) =~= t0);
                lemma_frame_trans(g, &res0, &res_before, res, &ev0, &ev_loop, ev);
            }
            return Err(e);
        },
    };
    proof {
        assert(outs@.take(0) =~= Seq::<(usize, ProtosValueType)>::empty());
    }
    ev.done.set(node, true);
    let mut i: usize = 0;
    while i < outs.len()
        invariant
            0 <= i <= outs@.len(),
            node < g.nodes@.len(),
            ev.done@ == ev_started.done@.update(node as int, true),
            ev.visited == ev_started.visited,
            ev.trace == ev_started.trace,
            ev.width == ev_started.width,
            ev.height == ev_started.height,
            ev_started.inv(g),
            !ev_started.done@[node as int],
            forall|j: int| 0 <= j < ev.cache.entries@.len() ==> {
                let o = (#[trigger] ev.cache.entries@[j]).output;
                o.node < g.nodes@.len() && ev.done@[o.node as int]
            },
            forall|key: OutputRef| #[trigger] lookup(ev_started.cache.entries@, key) is Some
                ==> lookup(ev.cache.entries@, key) == lookup(ev_started.cache.entries@, key),
            outputs_cached(node, outs@.take(i as int), ev.cache.entries@),
        decreases outs@.len() - i,
    {
        let ghost before = ev.cache.entries@;
        let key = OutputRef { node, output: outs[i].0 };
        ev.cache.insert(key, outs[i].1.copy());
        proof {
            assert forall|kk: OutputRef| #[trigger] lookup(ev_started.cache.entries@, kk) is Some
                implies lookup(ev.cache.entries@, kk) == lookup(ev_started.cache.entries@, kk) by {
                lemma_lookup_push(before, ev.cache.entries@.last(), kk);
                assert(ev.cache.entries@ == before.push(ev.cache.entries@.last()));
                lemma_lookup_found(ev_started.cache.entries@, kk);
                let j = choose|j: int| 0 <= j < ev_started.cache.entries@.len()
                    && (#[trigger] ev_started.cache.entries@[j]).output == kk;
                assert(ev_started.done@[kk.node as int]);
            }
            assert forall|j: int| 0 <= j < ev.cache.entries@.len() implies {
                let o = (#[trigger] ev.cache.entries@[j]).output;
                o.node < g.nodes@.len() && ev.done@[o.node as int]
            } by {
                if j < before.len() {
                    assert(ev.cache.entries@[j] == before[j]);
                }
            }
            let t = outs@.take(i + 1);
            assert forall|a: int| 0 <= a < t.len() && (forall|b: int| a < b < t.len() ==> t[b].0 != t[a].0)
                implies lookup(ev.cache.entries@, OutputRef { node, output: (#[trigger] t[a]).0 }) == Some(t[a].1) by {
                lemma_lookup_push(before, ev.cache.entries@.last(), OutputRef { node, output: t[a].0 });
                assert(ev.cache.entries@ == before.push(ev.cache.entries@.last()));
                if a < i {
                    assert(t[i as int].0 != t[a].0);
                    assert(outs@.take(i as int)[a] == t[a]);
                    assert(forall|b: int| a < b < i ==> outs@.take(i as int)[b] == t[b]);
                }
            }
        }
        i = i + 1;
    }
    proof {
        assert(outs@.take(outs@.len() as int) =~= outs@);
    }
    let ghost t1 = ev.trace@;
    ev.trace.push(TraceEvent::Finished(node));
    proof {
        let t = ev.trace@;
        assert forall|i: int| 0 <= i <= t1.len() implies #[trigger] t.take(i) == t1.take(i) by {
            assert(t.take(i) =~= t1.take(i));
        }
        assert(t1.take(t1.len() as int) =~= t1);
        assert(t1[t1.len() - 1] == TraceEvent::Started(node));
        assert(t1.contains(TraceEvent::Started(node)));
        assert forall|i: int, j: int| 0 <= i < j < t.len() implies t[i] != t[j] by {
            if j == t1.len() {
                if t1[i] == TraceEvent::Finished(node) {
                    assert(ev_started.done@[node as int]);
                }
            } else {
                assert(t1[i] != t1[j]);
            }
        }
        assert forall|v: int| 0 <= v < g.nodes@.len() && #[trigger] ev.done@[v] implies t.contains(TraceEvent::Finished(v as usize)) by {
            if v == node {
                assert(t[t1.len() as int] == TraceEvent::Finished(node));
            } else {
                assert(ev_started.done@[v]);
                assert(t1.contains(TraceEvent::Finished(v as usize)));
                let i = choose|i: int| 0 <= i < t1.len() && t1[i] == TraceEvent::Finished(v as usize);
                assert(t[i] == t1[i]);
            }
        }
        assert forall|i: int| 0 <= i < t.len() implies ((#[trigger] t[i]) matches TraceEvent::Finished(v)
            ==> t.take(i).contains(TraceEvent::Started(v))) by {
            if i < t1.len() {
                assert(t[i] == t1[i]);
            }
        }
        assert forall|i: int| 0 <= i < t.len() implies ((#[trigger] t[i]) matches TraceEvent::Started(v)
            ==> v < g.nodes@.len() && producers_finished(g, v as int, t.take(i))) by {
            if i < t1.len() {
                assert(t[i] == t1[i]);
            }
        }
        assert forall|i: int| 0 <= i < t.len() implies ((#[trigger] t[i]) matches TraceEvent::Finished(v) ==> ev.done@[v as int]) by {
            if i < t1.len() {
                assert(t[i] == t1[i]);
            }
        }
        assert forall|v: int| 0 <= v < g.nodes@.len() && #[trigger] ev.done@[v] implies ev.visited@[v] by {
            if v != node {
                assert(ev_started.done@[v]);
            }
        }
        assert(ev.inv(g));
        assert(ev.trace@.take(ev0.trace@.len() as int) =~= ev0.trace@) by {
            assert(t1.take(ev0.trace@.len() as int) == ev0.trace@);
            assert(t.take(ev0.trace@.len() as int) == t1.take(ev0.trace@.len() as int));
        }
        assert forall|key: OutputRef| #[trigger] lookup(ev0.cache.entries@, key) is Some
            implies lookup(ev.cache.entries@, key) == lookup(ev0.cache.entries@, key) by {
            assert(lookup(ev_started.cache.entries@, key) is Some);
        }
    }
    proof {
        assert(ev.trace@.contains(TraceEvent::Started(node))) by {
            assert(ev.trace@[t1.len() - 1] == TraceEvent::Started(node));
        }
        assert forall|k: int| 0 <= k < vals@.len() implies match #[trigger] g.source(node as int, k) {
            None => vals@[k] == g.nodes@[node as int].inputs@[k].value,
            Some(o) => lookup(ev.cache.entries@, o) == Some(vals@[k]),
        } by {
            if let Some(o) = g.source(node as int, k) {
                assert(lookup(ev_started.cache.entries@, o) is Some);
            }
        }
        assert(resolved(g, node as int, vals@, ev.cache.entries@));
        assert(kind_eval(g, node as int, vals@, &res_before, res, kr, old(ev).width, old(ev).height));
        assert(node_outcome(g, node as int, ev.cache.entries@, res, Ok::<(), EvalError>(()), old(ev).width, old(ev).height));
        assert(ev.trace@[t0.len() as int] == TraceEvent::Started(node));
        assert(started_since(&ev_loop, ev, node as int));
        lemma_kind_frame(g, &res_before, res, &ev_loop, ev, node as int);
        assert(ev.trace@.take(t0.len() as int) =~= t0);
        lemma_frame_trans(g, &res0, &res_before, res, &ev0, &ev_loop, ev);
    }
    Ok(())
}

/// Resolves the input of node `node` named `name` (see
/// [`evaluate_input_at`]); `SocketNotFound` when the node has no such input.
pub fn evaluate_input<G: GpuContext>(
    g: &Graph,
    res: &mut Resources,
    gpu: &mut G,
    ev: &mut Evaluation,
    node: usize,
    name: &String,
) -> (r: Result<ProtosValueType, EvalError>)
    requires
        g.wf(),
        g.fits(old(res)),
        old(res).wf(),
        old(ev).inv(g),
        node < g.nodes@.len(),
    ensures
        arena_kept(final(res), old(res)),
        g.fits(final(res)),
        final(ev).inv(g),
        final(ev).extends(old(ev)),
        (forall|k: int| 0 <= k < g.nodes@[node as int].inputs@.len()
            ==> (#[trigger] g.nodes@[node as int].inputs@[k]).name@ != name@)
            ==> r == Err::<ProtosValueType, EvalError>(EvalError::SocketNotFound) && *final(ev) == *old(ev),
        forall|k: int| crate::node_eval::is_first_named(g.nodes@[node as int].inputs@, k, name@) ==>
            match #[trigger] g.source(node as int, k) {
                None => r == Ok::<ProtosValueType, EvalError>(g.nodes@[node as int].inputs@[k].value)
                    && *final(ev) == *old(ev),
                Some(o) => {
                    &&& (r is Ok ==> final(ev).done@[o.node as int]
                        && lookup(final(ev).cache.entries@, o) == Some(r->Ok_0))
                    &&& (lookup(old(ev).cache.entries@, o) matches Some(v) ==>
                        r == Ok::<ProtosValueType, EvalError>(v) && *final(ev) == *old(ev))
                    &&& (lookup(old(ev).cache.entries@, o) is None && old(ev).visited@[o.node as int] ==>
                        r == Err::<ProtosValueType, EvalError>(if old(ev).done@[o.node as int] {
                            EvalError::CachePopulationViolation
                        } else {
                            EvalError::CycleDetected
                        }) && *final(ev) == *old(ev))
                    &&& (lookup(old(ev).cache.entries@, o) is None && !old(ev).visited@[o.node as int] ==> {
                        &&& (final(ev).done@[o.node as int] ==> match lookup(final(ev).cache.entries@, o) {
                            Some(v) => r == Ok::<ProtosValueType, EvalError>(v),
                            None => r == Err::<ProtosValueType, EvalError>(EvalError::CachePopulationViolation),
                        })
                        &&& (final(ev).done@[o.node as int] ==> node_outcome(g, o.node as int, final(ev).cache.entries@,
                            final(res), Ok::<(), EvalError>(()), old(ev).width, old(ev).height))
                        &&& (final(ev).done@[o.node as int] && declared_outputs(g, o.node as int) ==> r is Ok)
                        &&& (!final(ev).done@[o.node as int] ==> r is Err && r->Err_0 is NodeFailed
                            && (final(ev).trace@.contains(TraceEvent::Started(o.node)) ==> node_outcome(g, o.node as int,
                                final(ev).cache.entries@, final(res), Err::<(), EvalError>(*(r->Err_0->NodeFailed_0)),
                                old(ev).width, old(ev).height)))
                        &&& (!final(ev).done@[o.node as int] && !final(ev).trace@.contains(TraceEvent::Started(o.node)) ==>
                            r is Err && r->Err_0 is NodeFailed && exists|j: int| 0 <= j < g.nodes@[o.node as int].inputs@.len()
                                && (#[trigger] g.source(o.node as int, j)) is Some
                                && input_failure(g, final(ev), g.source(o.node as int, j)->Some_0.node as int, *(r->Err_0->NodeFailed_0)))
                    })
                },
            },
        frame_kept(g, old(res), final(res), old(ev), final(ev)),
{
    proof {
        lemma_arena_kept_refl(res);
        lemma_extends_refl(ev);
    }
    proof {
        lemma_frame_same_res(g, res, ev, ev);
    }
    match g.get_input(node, name) {
        None => Err(EvalError::SocketNotFound),
        Some(k) => {
            let r = evaluate_input_at(g, res, gpu, ev, node, k);
            proof {
                assert forall|j: int| crate::node_eval::is_first_named(g.nodes@[node as int].inputs@, j, name@)
                    implies j == k by {
                    if j < k {
                        assert(g.nodes@[node as int].inputs@[j].name@ != name@);
                    } else if j > k {
                        assert(g.nodes@[node as int].inputs@[k as int].name@ != name@);
                    }
                }
            }
            r
        },
    }
}

/// Evaluates `root` within traversal `ev` unless it was already evaluated.
pub fn evaluate<G: GpuContext>(
    g: &Graph,
    res: &mut Resources,
    gpu: &mut G,
    ev: &mut Evaluation,
    root: usize,
) -> (r: Result<(), EvalError>)
    requires
        g.wf(),
        g.fits(old(res)),
        old(res).wf(),
        old(ev).inv(g),
        root < g.nodes@.len(),
    ensures
        arena_kept(final(res), old(res)),
        g.fits(final(res)),
        final(ev).inv(g),
        final(ev).extends(old(ev)),
        r is Ok <==> final(ev).done@[root as int],
        old(ev).done@[root as int] ==> r is Ok && *final(ev) == *old(ev),
        old(ev).visited@[root as int] && !old(ev).done@[root as int] ==> r == Err::<(), EvalError>(EvalError::CycleDetected),
        !old(ev).visited@[root as int] && unconnected(g, root as int) ==> exists|kr: Result<Outputs, EvalError>|
            kind_eval(g, root as int, inline_values(g, root as int), old(res), final(res), kr, old(ev).width, old(ev).height)
            && (r is Ok <==> kr is Ok) && (kr is Err ==> r == Err::<(), EvalError>(kr->Err_0)),
        !old(ev).visited@[root as int] && final(ev).trace@.contains(TraceEvent::Started(root)) ==>
            node_outcome(g, root as int, final(ev).cache.entries@, final(res), r, old(ev).width, old(ev).height),
        !old(ev).visited@[root as int] && r is Err && !final(ev).trace@.contains(TraceEvent::Started(root)) ==> exists|k: int|
            0 <= k < g.nodes@[root as int].inputs@.len() && (#[trigger] g.source(root as int, k)) is Some
            && input_failure(g, final(ev), g.source(root as int, k)->Some_0.node as int, r->Err_0),
        frame_kept(g, old(res), final(res), old(ev), final(ev)),
        !old(ev).visited@[root as int] && unconnected(g, root as int) && r is Err ==> final(ev).cache == old(ev).cache,
        final(ev).visited@[root as int],
{
    proof {
        lemma_arena_kept_refl(res);
        lemma_extends_refl(ev);
    }
    proof {
        lemma_frame_same_res(g, res, ev, ev);
    }
    if ev.done[root] {
        return Ok(());
    }
    if ev.visited[root] {
        return Err(EvalError::CycleDetected);
    }
    let ghost ev0 = *ev;
    ev.visited.set(root, true);
    proof {
        assert(ev.inv(g));
        assert(ev.trace@.take(ev0.trace@.len() as int) =~= ev0.trace@);
        assert(ev.extends(&ev0));
        assert(ev.untouched(root as int));
    }
    let ghost ev1 = *ev;
    let ghost res1 = *res;
    let r = evaluate_node(g, res, gpu, ev, root);
    proof {
        lemma_extends_trans(&ev0, &ev1, ev);
        lemma_frame_same_res(g, &res1, &ev0, &ev1);
        assert(trace_extends(&ev1, &ev0));
        assert(trace_extends(ev, &ev1));
        lemma_frame_trans(g, &res1, &res1, res, &ev0, &ev1, ev);
        assert(ev1.visited@[root as int]);
    }
    r
}

/// The evaluate phase of one frame: a fresh traversal from `root` for a
/// `width` x `height` frame. Returns the traversal (its trace and cache)
/// with the outcome.
pub fn evaluate_frame<G: GpuContext>(
    g: &Graph,
    res: &mut Resources,
    gpu: &mut G,
    root: usize,
    width: u32,
    height: u32,
) -> (r: (Evaluation, Result<(), EvalError>))
    requires
        g.wf(),
        g.fits(old(res)),
        old(res).wf(),
        root < g.nodes@.len(),
    ensures
        arena_kept(final(res), old(res)),
        g.fits(final(res)),
        r.0.inv(g),
        r.0.width == width,
        r.0.height == height,
        r.1 is Ok <==> r.0.done@[root as int],
        unconnected(g, root as int) ==> exists|kr: Result<Outputs, EvalError>|
            kind_eval(g, root as int, inline_values(g, root as int), old(res), final(res), kr, width, height)
            && (r.1 is Ok <==> kr is Ok) && (kr is Err ==> r.1 == Err::<(), EvalError>(kr->Err_0)),
        r.0.trace@.contains(TraceEvent::Started(root)) ==>
            node_outcome(g, root as int, r.0.cache.entries@, final(res), r.1, width, height),
        r.1 is Err && !r.0.trace@.contains(TraceEvent::Started(root)) ==> exists|k: int|
            0 <= k < g.nodes@[root as int].inputs@.len() && (#[trigger] g.source(root as int, k)) is Some
            && input_failure(g, &r.0, g.source(root as int, k)->Some_0.node as int, r.1->Err_0),
        unconnected(g, root as int) && r.1 is Err ==> r.0.cache.entries@.len() == 0,
        r.0.visited@[root as int],
{
    let mut ev = Evaluation::new(g.nodes.len(), width, height);
    proof {
        assert(ev.inv(g));
    }
    let r = evaluate(g, res, gpu, &mut ev, root);
    (ev, r)
}

} // verus!
