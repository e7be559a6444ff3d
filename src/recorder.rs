//! The record phase: the same demand-driven walk as the evaluate phase, each
//! node recorded once, after everything it reads from.
use vstd::prelude::*;
use crate::graph::Graph;
use crate::resource::RecordError;
use crate::resources::Resources;
use crate::gpu::Command;
use crate::nodes::ProtosNodeTemplate;
use crate::evaluator::{count_false, lemma_count_false_mono};

verus! {

/// The state of one record traversal.
pub struct Recording {
    /// The node was reached (its recording began).
    pub entered: Vec<bool>,
    /// The node's commands were recorded.
    pub finished: Vec<bool>,
    /// The recorded nodes, in the order they were recorded.
    pub order: Vec<usize>,
}

/// Every node that input sockets of node `n` are connected to is in `prefix`.
pub open spec fn producers_in(g: &Graph, n: int, prefix: Seq<usize>) -> bool {
    forall|k: int| 0 <= k < g.nodes@[n].inputs@.len() ==>
        ((#[trigger] g.source(n, k)) matches Some(o) ==> prefix.contains(o.node))
}

/// The result of recording node `n`'s own commands, once its inputs are
/// recorded.
pub open spec fn own_outcome(g: &Graph, res: &Resources, n: int) -> Result<(), RecordError> {
    match g.nodes@[n].template {
        ProtosNodeTemplate::BackbufferPass(p) => match res.backbuffer_command(p.handle as int) {
            Err(e) => Err(e),
            Ok(_) => Ok(()),
        },
        ProtosNodeTemplate::GraphicPass(p) => match res.graphic_pass_outcome(p.handle as int) {
            Err(e) => Err(e),
            Ok(_) => Ok(()),
        },
        _ => Ok(()),
    }
}

/// Whether recording node `n` appends a command of its own.
pub open spec fn emits(g: &Graph, res: &Resources, n: int) -> bool {
    match g.nodes@[n].template {
        ProtosNodeTemplate::BackbufferPass(p) => res.backbuffer_command(p.handle as int) matches Ok(Some(_)),
        ProtosNodeTemplate::GraphicPass(p) => res.graphic_pass_outcome(p.handle as int) == Ok::<bool, RecordError>(true),
        ProtosNodeTemplate::ComputePass(p) => res.compute_passes@[p.handle as int].data is Some,
        _ => false,
    }
}

/// `c` is the command that node `n` appends.
pub open spec fn own_command(g: &Graph, res: &Resources, n: int, c: Command) -> bool {
    match g.nodes@[n].template {
        ProtosNodeTemplate::BackbufferPass(p) => res.backbuffer_command(p.handle as int) == Ok::<Option<Command>, RecordError>(Some(c)),
        ProtosNodeTemplate::GraphicPass(p) => res.is_draw_of(p.handle as int, c),
        ProtosNodeTemplate::ComputePass(p) => c == (Command::Dispatch { pass: res.compute_passes@[p.handle as int].data->Some_0.pipeline }),
        _ => false,
    }
}

/// `cmds` are the own commands of `nodes`, in the same order.
pub open spec fn commands_match(g: &Graph, res: &Resources, nodes: Seq<usize>, cmds: Seq<Command>) -> bool
    decreases nodes.len(),
{
    if nodes.len() == 0 {
        cmds.len() == 0
    } else if emits(g, res, nodes.last() as int) {
        cmds.len() > 0 && own_command(g, res, nodes.last() as int, cmds.last())
            && commands_match(g, res, nodes.drop_last(), cmds.drop_last())
    } else {
        commands_match(g, res, nodes.drop_last(), cmds)
    }
}

proof fn lemma_commands_one(g: &Graph, res: &Resources, a: Seq<usize>, ca: Seq<Command>, n: usize, cn: Seq<Command>)
    requires
        commands_match(g, res, a, ca),
        emits(g, res, n as int) ==> cn.len() == 1 && own_command(g, res, n as int, cn[0]),
        !emits(g, res, n as int) ==> cn.len() == 0,
    ensures
        commands_match(g, res, a.push(n), ca + cn),
{
    let b = seq![n];
    assert(b.drop_last() =~= Seq::<usize>::empty());
    assert(b.last() == n);
    assert(commands_match(g, res, Seq::<usize>::empty(), Seq::<Command>::empty()));
    if emits(g, res, n as int) {
        assert(cn.drop_last() =~= Seq::<Command>::empty());
        assert(cn.last() == cn[0]);
    } else {
        assert(cn =~= Seq::<Command>::empty());
    }
    assert(commands_match(g, res, b, cn));
    lemma_commands_concat(g, res, a, ca, b, cn);
    assert(a + b =~= a.push(n));
}

proof fn lemma_commands_concat(g: &Graph, res: &Resources, a: Seq<usize>, ca: Seq<Command>, b: Seq<usize>, cb: Seq<Command>)
    requires
        commands_match(g, res, a, ca),
        commands_match(g, res, b, cb),
    ensures
        commands_match(g, res, a + b, ca + cb),
    decreases b.len(),
{
    if b.len() == 0 {
        assert(a + b =~= a);
        assert(ca + cb =~= ca);
    } else {
        assert((a + b).drop_last() =~= a + b.drop_last());
        assert((a + b).last() == b.last());
        if emits(g, res, b.last() as int) {
            lemma_commands_concat(g, res, a, ca, b.drop_last(), cb.drop_last());
            assert((ca + cb).drop_last() =~= ca + cb.drop_last());
            assert((ca + cb).last() == cb.last());
        } else {
            lemma_commands_concat(g, res, a, ca, b.drop_last(), cb);
        }
    }
}

/// Every input of node `n` is connected to a recorded node, or to none.
pub open spec fn producers_done(g: &Graph, rec: &Recording, n: int) -> bool {
    forall|k: int| 0 <= k < g.nodes@[n].inputs@.len() ==>
        ((#[trigger] g.source(n, k)) matches Some(o) ==> rec.finished@[o.node as int])
}

/// Where a record error `e` comes from: a node that was reached, whose inputs
/// were all recorded and whose own recording fails with `e`; or, for a
/// cycle, a reached node reading from a node still being recorded.
pub open spec fn blamed(g: &Graph, res: &Resources, rec: &Recording, e: RecordError) -> bool {
    ||| exists|m: int| 0 <= m < g.nodes@.len() && #[trigger] rec.entered@[m] && !rec.finished@[m]
        && producers_done(g, rec, m) && own_outcome(g, res, m) == Err::<(), RecordError>(e)
    ||| (e == RecordError::CycleDetected && exists|m: int, k: int| 0 <= m < g.nodes@.len()
        && 0 <= k < g.nodes@[m].inputs@.len() && rec.entered@[m] && !rec.finished@[m]
        && (#[trigger] g.source(m, k)) is Some && rec.entered@[g.source(m, k)->Some_0.node as int]
        && !rec.finished@[g.source(m, k)->Some_0.node as int])
}

impl Recording {
    pub fn new(nodes: usize) -> (r: Self)
        ensures
            r.entered@ == Seq::new(nodes as nat, |i: int| false),
            r.finished@ == Seq::new(nodes as nat, |i: int| false),
            r.order@.len() == 0,
    {
        let mut entered: Vec<bool> = Vec::new();
        let mut finished: Vec<bool> = Vec::new();
        let mut i: usize = 0;
        while i < nodes
            invariant
                0 <= i <= nodes,
                entered@ =~= Seq::new(i as nat, |j: int| false),
                finished@ =~= Seq::new(i as nat, |j: int| false),
            decreases nodes - i,
        {
            entered.push(false);
            finished.push(false);
            i = i + 1;
        }
        Recording { entered, finished, order: Vec::new() }
    }

    pub open spec fn inv(&self, g: &Graph) -> bool {
        let n = g.nodes@.len();
        let o = self.order@;
        &&& self.entered@.len() == n
        &&& self.finished@.len() == n
        &&& forall|v: int| 0 <= v < n && #[trigger] self.finished@[v] ==> self.entered@[v]
        &&& forall|i: int| 0 <= i < o.len() ==> (#[trigger] o[i]) < n && self.finished@[o[i] as int]
        &&& forall|v: int| 0 <= v < n && #[trigger] self.finished@[v] ==> o.contains(v as usize)
        &&& forall|i: int, j: int| 0 <= i < j < o.len() ==> o[i] != o[j]
        &&& forall|i: int| 0 <= i < o.len() ==> producers_in(g, (#[trigger] o[i]) as int, o.take(i))
    }

    pub open spec fn extends(&self, old: &Recording) -> bool {
        &&& self.entered@.len() == old.entered@.len()
        &&& self.finished@.len() == old.finished@.len()
        &&& forall|v: int| 0 <= v < old.entered@.len() && #[trigger] old.entered@[v] ==> self.entered@[v]
        &&& forall|v: int| 0 <= v < old.finished@.len() && #[trigger] old.finished@[v] ==> self.finished@[v]
        &&& self.order@.len() >= old.order@.len()
        &&& self.order@.take(old.order@.len() as int) == old.order@
    }
}

proof fn lemma_rec_extends_trans(a: &Recording, b: &Recording, c: &Recording)
    requires
        b.extends(a),
        c.extends(b),
    ensures
        c.extends(a),
{
    assert(c.order@.take(a.order@.len() as int) =~= b.order@.take(a.order@.len() as int));
}

proof fn lemma_rec_extends_refl(a: &Recording)
    ensures
        a.extends(a),
{
    assert(a.order@.take(a.order@.len() as int) =~= a.order@);
}

/// The commands only grow.
pub open spec fn appended(new: Seq<Command>, old: Seq<Command>) -> bool {
    new.len() >= old.len() && new.take(old.len() as int) == old
}

proof fn lemma_appended_trans(a: Seq<Command>, b: Seq<Command>, c: Seq<Command>)
    requires
        appended(b, a),
        appended(c, b),
    ensures
        appended(c, a),
{
    assert(c.take(a.len() as int) =~= b.take(a.len() as int));
}

/// Records what input `k` of node `node` reads from: the producer, unless it
/// was already recorded.
pub fn record_input_at(
    g: &Graph,
    res: &Resources,
    rec: &mut Recording,
    cmds: &mut Vec<Command>,
    node: usize,
    k: usize,
) -> (r: Result<(), RecordError>)
    requires
        g.wf(),
        g.fits(res),
        old(rec).inv(g),
        node < g.nodes@.len(),
        k < g.nodes@[node as int].inputs@.len(),
        old(rec).entered@[node as int],
        !old(rec).finished@[node as int],
    ensures
        final(rec).inv(g),
        final(rec).extends(old(rec)),
        appended(final(cmds)@, old(cmds)@),
        forall|i: int| old(rec).order@.len() <= i < final(rec).order@.len() ==>
            !old(rec).entered@[#[trigger] final(rec).order@[i] as int],
        commands_match(g, res, final(rec).order@.skip(old(rec).order@.len() as int),
            final(cmds)@.skip(old(cmds)@.len() as int)),
        r matches Err(e) ==> blamed(g, res, final(rec), e),
        match g.source(node as int, k as int) {
            None => r is Ok && *final(rec) == *old(rec) && final(cmds)@ == old(cmds)@,
            Some(o) => {
                &&& (r is Ok <==> final(rec).finished@[o.node as int])
                &&& (old(rec).finished@[o.node as int] ==> r is Ok && *final(rec) == *old(rec)
                    && final(cmds)@ == old(cmds)@)
                &&& (old(rec).entered@[o.node as int] && !old(rec).finished@[o.node as int] ==>
                    r == Err::<(), RecordError>(RecordError::CycleDetected) && *final(rec) == *old(rec)
                    && final(cmds)@ == old(cmds)@)
                &&& (!old(rec).entered@[o.node as int] ==> final(rec).entered@[o.node as int])
            },
        },
    decreases count_false(old(rec).entered@), 1nat,
{
    proof {
        lemma_rec_extends_refl(rec);
        assert(cmds@.take(cmds@.len() as int) =~= cmds@);
        assert(rec.order@.skip(rec.order@.len() as int) =~= Seq::<usize>::empty());
        assert(cmds@.skip(cmds@.len() as int) =~= Seq::<Command>::empty());
    }
    let o = match g.nodes[node].inputs[k].connection {
        None => return Ok(()),
        Some(o) => o,
    };
    if rec.finished[o.node] {
        return Ok(());
    }
    if rec.entered[o.node] {
        proof {
            assert(g.source(node as int, k as int) is Some);
        }
        return Err(RecordError::CycleDetected);
    }
    let ghost rec0 = *rec;
    rec.entered.set(o.node, true);
    proof {
        lemma_count_false_mono(rec0.entered@, rec.entered@);
        assert(rec.entered@[o.node as int]);
        assert(rec.inv(g));
        assert(rec.order@.take(rec0.order@.len() as int) =~= rec0.order@);
        assert(!rec.order@.contains(o.node)) by {
            if rec.order@.contains(o.node) {
                let i = choose|i: int| 0 <= i < rec.order@.len() && rec.order@[i] == o.node;
                assert(rec0.finished@[rec0.order@[i] as int]);
            }
        }
    }
    let ghost rec1 = *rec;
    let r = record_node(g, res, rec, cmds, o.node);
    proof {
        assert(rec.order@.skip(rec0.order@.len() as int) == rec.order@.skip(rec1.order@.len() as int));
        lemma_rec_extends_trans(&rec0, &rec1, rec);
        assert forall|i: int| rec0.order@.len() <= i < rec.order@.len() implies
            !rec0.entered@[#[trigger] rec.order@[i] as int] by {
            if rec.order@[i] != o.node {
                assert(!rec1.entered@[rec.order@[i] as int]);
            }
        }
    }
    r
}

/// Records node `node`, which the caller has just reached: first what each
/// of its inputs reads from, in order, then its own commands.
pub fn record_node(
    g: &Graph,
    res: &Resources,
    rec: &mut Recording,
    cmds: &mut Vec<Command>,
    node: usize,
) -> (r: Result<(), RecordError>)
    requires
        g.wf(),
        g.fits(res),
        old(rec).inv(g),
        node < g.nodes@.len(),
        old(rec).entered@[node as int],
        !old(rec).finished@[node as int],
        !old(rec).order@.contains(node),
    ensures
        final(rec).inv(g),
        final(rec).extends(old(rec)),
        appended(final(cmds)@, old(cmds)@),
        forall|i: int| old(rec).order@.len() <= i < final(rec).order@.len() ==>
            !old(rec).entered@[#[trigger] final(rec).order@[i] as int] || final(rec).order@[i] == node,
        r is Ok <==> final(rec).finished@[node as int],
        r is Ok ==> match g.nodes@[node as int].template {
            ProtosNodeTemplate::BackbufferPass(n) => match res.backbuffer_command(n.handle as int) {
                Ok(Some(c)) => final(cmds)@.len() > old(cmds)@.len() && final(cmds)@.last() == c,
                _ => true,
            },
            ProtosNodeTemplate::GraphicPass(n) => res.graphic_pass_outcome(n.handle as int) == Ok::<bool, RecordError>(true)
                ==> final(cmds)@.len() > old(cmds)@.len() && res.is_draw_of(n.handle as int, final(cmds)@.last()),
            ProtosNodeTemplate::ComputePass(n) => match res.compute_passes@[n.handle as int].data {
                Some(d) => final(cmds)@.len() > old(cmds)@.len()
                    && final(cmds)@.last() == (Command::Dispatch { pass: d.pipeline }),
                None => true,
            },
            _ => true,
        },
        commands_match(g, res, final(rec).order@.skip(old(rec).order@.len() as int),
            final(cmds)@.skip(old(cmds)@.len() as int)),
        r matches Err(e) ==> blamed(g, res, final(rec), e),
        r is Ok ==> own_outcome(g, res, node as int) is Ok,
        producers_done(g, final(rec), node as int) ==> (r == own_outcome(g, res, node as int)),
    decreases count_false(old(rec).entered@), 2nat,
{
    let ghost rec0 = *rec;
    let ghost cmds0 = cmds@;
    proof {
        lemma_rec_extends_refl(rec);
        assert(cmds@.take(cmds@.len() as int) =~= cmds@);
        assert(rec.order@.skip(rec.order@.len() as int) =~= Seq::<usize>::empty());
        assert(cmds@.skip(cmds@.len() as int) =~= Seq::<Command>::empty());
    }
    let n_in = g.nodes[node].inputs.len();
    let mut k: usize = 0;
    while k < n_in
        invariant
            g.wf(),
            g.fits(res),
            rec0 == *old(rec),
            cmds0 == old(cmds)@,
            rec.inv(g),
            rec.extends(&rec0),
            appended(cmds@, cmds0),
            forall|i: int| rec0.order@.len() <= i < rec.order@.len() ==>
                !rec0.entered@[#[trigger] rec.order@[i] as int],
            count_false(rec.entered@) <= count_false(rec0.entered@),
            node < g.nodes@.len(),
            n_in == g.nodes@[node as int].inputs@.len(),
            0 <= k <= n_in,
            rec.entered@[node as int],
            !rec.finished@[node as int],
            !rec.order@.contains(node),
            forall|j: int| 0 <= j < k ==> ((#[trigger] g.source(node as int, j)) matches Some(o) ==> rec.finished@[o.node as int]),
            commands_match(g, res, rec.order@.skip(rec0.order@.len() as int), cmds@.skip(cmds0.len() as int)),
        decreases n_in - k,
    {
        let ghost reck = *rec;
        let ghost cmdsk = cmds@;
        let r = record_input_at(g, res, rec, cmds, node, k);
        proof {
            assert(rec.order@.skip(rec0.order@.len() as int)
                =~= reck.order@.skip(rec0.order@.len() as int) + rec.order@.skip(reck.order@.len() as int)) by {
                assert(rec.order@.take(reck.order@.len() as int) == reck.order@);
                assert(reck.order@.take(rec0.order@.len() as int) == rec0.order@);
            }
            assert(cmds@.skip(cmds0.len() as int) =~= cmdsk.skip(cmds0.len() as int) + cmds@.skip(cmdsk.len() as int)) by {
                assert(cmds@.take(cmdsk.len() as int) == cmdsk);
                assert(cmdsk.take(cmds0.len() as int) == cmds0);
            }
            lemma_commands_concat(g, res, reck.order@.skip(rec0.order@.len() as int), cmdsk.skip(cmds0.len() as int),
                rec.order@.skip(reck.order@.len() as int), cmds@.skip(cmdsk.len() as int));
            lemma_rec_extends_trans(&rec0, &reck, rec);
            lemma_appended_trans(cmds0, cmdsk, cmds@);
            lemma_count_false_mono(reck.entered@, rec.entered@);
            assert forall|i: int| rec0.order@.len() <= i < rec.order@.len() implies
                !rec0.entered@[#[trigger] rec.order@[i] as int] by {
                if i >= reck.order@.len() {
                    assert(!reck.entered@[rec.order@[i] as int]);
                } else {
                    assert(rec.order@.take(reck.order@.len() as int)[i] == rec.order@[i]);
                }
            }
            assert(!rec.order@.contains(node)) by {
                if rec.order@.contains(node) {
                    let i = choose|i: int| 0 <= i < rec.order@.len() && rec.order@[i] == node;
                    if i >= reck.order@.len() {
                        assert(!reck.entered@[rec.order@[i] as int]);
                    } else {
                        assert(rec.order@.take(reck.order@.len() as int)[i] == rec.order@[i]);
                        assert(reck.order@[i] == node);
                    }
                }
            }
            if rec.finished@[node as int] {
                assert(rec.order@.contains(node));
            }
        }
        match r {
            Ok(()) => {},
            Err(e) => return Err(e),
        }
        k = k + 1;
    }
    let ghost cmds1 = cmds@;
    proof { assert(g.nodes@[node as int].template.handles_in(res)); }
    let own = match g.nodes[node].template {
        ProtosNodeTemplate::BackbufferPass(n) => res.record_backbuffer(n.handle, cmds),
        ProtosNodeTemplate::GraphicPass(n) => res.record_graphic_pass(n.handle, cmds),
        ProtosNodeTemplate::ComputePass(n) => res.record_compute_pass(n.handle, cmds),
        _ => Ok(()),
    };
    proof {
        assert(cmds@ == cmds1 || (cmds@.len() == cmds1.len() + 1 && cmds@.drop_last() == cmds1)) by {
            if cmds@ != cmds1 {
                assert(cmds@.drop_last() =~= cmds1);
            }
        }
        assert(appended(cmds@, cmds1)) by {
            if cmds@.len() > cmds1.len() {
                assert(cmds@.take(cmds1.len() as int) =~= cmds@.drop_last());
            } else {
                assert(cmds@.take(cmds1.len() as int) =~= cmds@);
            }
        }
        lemma_appended_trans(cmds0, cmds1, cmds@);
    }
    match own {
        Ok(()) => {},
        Err(e) => return Err(e),
    }
    let ghost cn = cmds@.skip(cmds1.len() as int);
    proof {
        if emits(g, res, node as int) {
            assert(cmds@.len() == cmds1.len() + 1);
            assert(cn.len() == 1 && cn[0] == cmds@.last());
        } else {
            assert(cmds@ == cmds1);
            assert(cn.len() == 0);
        }
        assert(cmds@.skip(cmds0.len() as int) =~= cmds1.skip(cmds0.len() as int) + cn) by {
            assert(cmds@.take(cmds1.len() as int) == cmds1);
        }
        lemma_commands_one(g, res, rec.order@.skip(rec0.order@.len() as int), cmds1.skip(cmds0.len() as int), node, cn);
    }
    let ghost o0 = rec.order@;
    rec.finished.set(node, true);
    rec.order.push(node);
    proof {
        let o = rec.order@;
        assert forall|i: int| 0 <= i <= o0.len() implies #[trigger] o.take(i) == o0.take(i) by {
            assert(o.take(i) =~= o0.take(i));
        }
        assert(o.take(o0.len() as int) =~= o0);
        assert forall|kk: int| 0 <= kk < g.nodes@[node as int].inputs@.len() implies
            ((#[trigger] g.source(node as int, kk)) matches Some(p) ==> o0.contains(p.node)) by {
            if let Some(p) = g.source(node as int, kk) {
                assert(rec.finished@[p.node as int]);
                assert(p.node != node);
            }
        }
        assert forall|i: int| 0 <= i < o.len() implies producers_in(g, (#[trigger] o[i]) as int, o.take(i)) by {
            if i < o0.len() {
                assert(o[i] == o0[i]);
            }
        }
        assert forall|i: int, j: int| 0 <= i < j < o.len() implies o[i] != o[j] by {
            if j < o0.len() {
                assert(o0[i] != o0[j]);
            } else {
                assert(o[i] == o0[i]);
            }
        }
        assert forall|v: int| 0 <= v < g.nodes@.len() && #[trigger] rec.finished@[v] implies o.contains(v as usize) by {
            if v == node {
                assert(o[o0.len() as int] == node);
            } else {
                assert(o0.contains(v as usize));
                let i = choose|i: int| 0 <= i < o0.len() && o0[i] == v as usize;
                assert(o[i] == o0[i]);
            }
        }
        assert forall|i: int| 0 <= i < o.len() implies (#[trigger] o[i]) < g.nodes@.len() && rec.finished@[o[i] as int] by {
            if i < o0.len() {
                assert(o[i] == o0[i]);
            }
        }
        assert(rec.inv(g));
        assert(rec.order@.take(rec0.order@.len() as int) =~= rec0.order@) by {
            assert(o0.take(rec0.order@.len() as int) == rec0.order@);
            assert(o.take(rec0.order@.len() as int) == o0.take(rec0.order@.len() as int));
        }
        assert(o.skip(rec0.order@.len() as int) =~= o0.skip(rec0.order@.len() as int).push(node));
    }
    Ok(())
}

/// The record phase of one frame, from `root`: returns the traversal (its
/// order) with the outcome; commands are appended to `cmds`.
pub fn record_frame(g: &Graph, res: &Resources, root: usize, cmds: &mut Vec<Command>) -> (r: (Recording, Result<(), RecordError>))
    requires
        g.wf(),
        g.fits(res),
        root < g.nodes@.len(),
    ensures
        r.0.inv(g),
        appended(final(cmds)@, old(cmds)@),
        r.1 is Ok <==> r.0.finished@[root as int],
        commands_match(g, res, r.0.order@, final(cmds)@.skip(old(cmds)@.len() as int)),
        r.1 matches Err(e) ==> blamed(g, res, &r.0, e),
        r.1 is Ok ==> own_outcome(g, res, root as int) is Ok,
        producers_done(g, &r.0, root as int) ==> r.1 == own_outcome(g, res, root as int),
{
    let mut rec = Recording::new(g.nodes.len());
    rec.entered.set(root, true);
    proof {
        assert(rec.inv(g));
        assert(!rec.order@.contains(root));
    }
    let r = record_node(g, res, &mut rec, cmds, root);
    assert(rec.order@.skip(0) =~= rec.order@);
    (rec, r)
}

} // verus!
