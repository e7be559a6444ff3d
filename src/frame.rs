//! One frame: evaluate from the selected backbuffer node, then record only
//! if the evaluation succeeded.
use vstd::prelude::*;
use crate::graph::Graph;
use crate::error::FrameError;
use crate::resources::Resources;
use crate::gpu::{Command, GpuContext};
use crate::evaluator::evaluate_frame;
use crate::recorder::{appended, producers_done, record_frame};
use crate::node_eval::{arena_kept, kind_eval, named_value, Outputs};
use crate::evaluator::{input_failure, inline_values, unconnected, lemma_done_started, node_outcome, resolved, outputs_cached, CacheEntry, Evaluation, TraceEvent};
use crate::node_eval::{is_first_named, lemma_first_named_unique};
use crate::recorder::{blamed, commands_match, Recording};
use crate::error::EvalError;
use crate::value::ProtosValueType;

verus! {

/// Which node is the root of each frame, as chosen in the editor.
#[derive(Copy, Clone, Debug, PartialEq, Eq, Structural)]
pub struct ProtosGraphState {
    pub backbuffer_node: Option<usize>,
}

/// What the editor asks of the root selection.
#[derive(Copy, Clone, Debug, PartialEq, Eq, Structural)]
pub enum ProtosResponse {
    SetCurrentBackbuffer(usize),
    ClearCurrentBackbuffer,
}

impl ProtosGraphState {
    pub fn new() -> (r: Self)
        ensures
            r.backbuffer_node.is_none(),
    {
        ProtosGraphState { backbuffer_node: None }
    }

    pub fn apply(&mut self, response: ProtosResponse)
        ensures
            final(self).backbuffer_node == (match response {
                ProtosResponse::SetCurrentBackbuffer(n) => Some(n),
                ProtosResponse::ClearCurrentBackbuffer => None::<usize>,
            }),
    {
        match response {
            ProtosResponse::SetCurrentBackbuffer(n) => self.backbuffer_node = Some(n),
            ProtosResponse::ClearCurrentBackbuffer => self.backbuffer_node = None,
        }
    }

    /// Whether `node` is the current root.
    pub fn is_active(&self, node: usize) -> (r: bool)
        ensures
            r == (self.backbuffer_node == Some(node)),
    {
        match self.backbuffer_node {
            Some(n) => n == node,
            None => false,
        }
    }
}

/// The first input of node `n` named `input` is unconnected and holds no
/// texture.
pub open spec fn input_unset(g: &Graph, n: int) -> bool {
    exists|k: int| is_first_named(g.nodes@[n].inputs@, k, "input"@) && #[trigger] g.source(n, k) is None
        && g.nodes@[n].inputs@[k].value == ProtosValueType::Texture(None)
}

/// `ev` is a finished evaluate traversal from `root` with outcome `er`.
pub open spec fn evaluated_frame(g: &Graph, res: &Resources, root: int, width: u32, height: u32, ev: Evaluation,
    er: Result<(), EvalError>) -> bool {
    &&& ev.inv(g)
    &&& ev.width == width && ev.height == height
    &&& ev.visited@[root]
    &&& (er is Ok <==> ev.done@[root])
    &&& (ev.trace@.contains(TraceEvent::Started(root as usize)) ==>
        node_outcome(g, root, ev.cache.entries@, res, er, width, height))
    &&& (er is Err && !ev.trace@.contains(TraceEvent::Started(root as usize)) ==> exists|k: int|
        0 <= k < g.nodes@[root].inputs@.len() && (#[trigger] g.source(root, k)) is Some
        && input_failure(g, &ev, g.source(root, k)->Some_0.node as int, er->Err_0))
}

/// `rec` is the record traversal from `root` that appended `new` after `old`
/// and ended with `r`.
pub open spec fn recorded_frame(g: &Graph, res: &Resources, root: int, rec: Recording, old: Seq<Command>, new: Seq<Command>,
    r: Result<(), FrameError>) -> bool {
    &&& rec.inv(g)
    &&& (r is Ok <==> rec.finished@[root])
    &&& commands_match(g, res, rec.order@, new.skip(old.len() as int))
    &&& (r is Err ==> r->Err_0 is Record && blamed(g, res, &rec, r->Err_0->Record_0))
}

proof fn lemma_unset_input_fails(g: &Graph, root: int, cache: Seq<CacheEntry>, res: &Resources, er: Result<(), EvalError>,
    width: u32, height: u32)
    requires
        0 <= root < g.nodes@.len(),
        g.nodes@[root].template is BackbufferPass,
        input_unset(g, root),
        node_outcome(g, root, cache, res, er, width, height),
    ensures
        er == Err::<(), EvalError>(EvalError::MissingRequiredInput),
{
    reveal(kind_eval);
    let ins = g.nodes@[root].inputs@;
    let (vals, mid, kr) = choose|vals: Seq<ProtosValueType>, mid: Resources, kr: Result<Outputs, EvalError>|
        resolved(g, root, vals, cache) && #[trigger] kind_eval(g, root, vals, &mid, res, kr, width, height)
        && (er is Ok <==> kr is Ok) && (kr is Err ==> er == Err::<(), EvalError>(kr->Err_0))
        && (kr is Ok ==> outputs_cached(root as usize, kr->Ok_0@, cache));
    let k = choose|k: int| is_first_named(ins, k, "input"@) && #[trigger] g.source(root, k) is None
        && ins[k].value == ProtosValueType::Texture(None);
    assert(vals[k] == ProtosValueType::Texture(None));
    let c = choose|c: int| is_first_named(ins, c, "input"@);
    lemma_first_named_unique(ins, c, k, "input"@);
    assert(named_value(ins, vals, "input"@) == Some(ProtosValueType::Texture(None)));
}

/// Evaluates the graph from `root` for a `width` x `height` frame and, only
/// if that succeeded, records its commands into `cmds`. Without a root (none
/// selected, or not a node of the graph) nothing happens.
pub fn run_frame<G: GpuContext>(
    g: &Graph,
    res: &mut Resources,
    gpu: &mut G,
    root: Option<usize>,
    width: u32,
    height: u32,
    cmds: &mut Vec<Command>,
) -> (r: Result<(), FrameError>)
    requires
        g.wf(),
        g.fits(old(res)),
        old(res).wf(),
    ensures
        arena_kept(final(res), old(res)),
        g.fits(final(res)),
        appended(final(cmds)@, old(cmds)@),
        (match root {
            Some(n) => n >= g.nodes@.len(),
            None => true,
        }) <==> r == Err::<(), FrameError>(FrameError::NoRoot),
        r == Err::<(), FrameError>(FrameError::NoRoot) ==> *final(res) == *old(res),
        r matches Err(FrameError::Evaluate(_)) ==> final(cmds)@ == old(cmds)@,
        root is Some && root->Some_0 < g.nodes@.len() && unconnected(g, root->Some_0 as int) ==> exists|kr: Result<Outputs, EvalError>|
            kind_eval(g, root->Some_0 as int, inline_values(g, root->Some_0 as int), old(res), final(res), kr, width, height)
            && (kr is Err ==> r == Err::<(), FrameError>(FrameError::Evaluate(kr->Err_0)) && final(cmds)@ == old(cmds)@),
        root is Some && root->Some_0 < g.nodes@.len() && unconnected(g, root->Some_0 as int)
            && g.nodes@[root->Some_0 as int].template is BackbufferPass
            && named_value(g.nodes@[root->Some_0 as int].inputs@, inline_values(g, root->Some_0 as int), "input"@)
                == Some(ProtosValueType::Texture(None))
            ==> r == Err::<(), FrameError>(FrameError::Evaluate(EvalError::MissingRequiredInput)) && final(cmds)@ == old(cmds)@,
        root is Some && root->Some_0 < g.nodes@.len() && unconnected(g, root->Some_0 as int)
            && g.nodes@[root->Some_0 as int].template is Camera ==> r is Ok,
        root is Some && root->Some_0 < g.nodes@.len() ==> exists|ev: Evaluation, er: Result<(), EvalError>|
            #[trigger] evaluated_frame(g, final(res), root->Some_0 as int, width, height, ev, er)
            && (er is Err ==> r == Err::<(), FrameError>(FrameError::Evaluate(er->Err_0)) && final(cmds)@ == old(cmds)@)
            && (er is Ok ==> exists|rec: Recording|
                #[trigger] recorded_frame(g, final(res), root->Some_0 as int, rec, old(cmds)@, final(cmds)@, r))
            && (g.nodes@[root->Some_0 as int].template is BackbufferPass && input_unset(g, root->Some_0 as int) ==>
                er is Err && (ev.trace@.contains(TraceEvent::Started(root->Some_0))
                    ==> er == Err::<(), EvalError>(EvalError::MissingRequiredInput))),
{
    proof {
        assert(cmds@.take(cmds@.len() as int) =~= cmds@);
    }
    let root = match root {
        Some(n) => {
            if n >= g.nodes.len() {
                return Err(FrameError::NoRoot);
            }
            n
        },
        None => return Err(FrameError::NoRoot),
    };
    let (_ev, evaluated) = evaluate_frame(g, res, gpu, root, width, height);
    proof {
        reveal(kind_eval);
        if unconnected(g, root as int) {
            let kr = choose|kr: Result<Outputs, EvalError>|
                kind_eval(g, root as int, inline_values(g, root as int), old(res), res, kr, width, height)
                && (evaluated is Ok <==> kr is Ok) && (kr is Err ==> evaluated == Err::<(), EvalError>(kr->Err_0));
            assert(kind_eval(g, root as int, inline_values(g, root as int), old(res), res, kr, width, height));
        }
    }
    proof {
        if g.nodes@[root as int].template is BackbufferPass && input_unset(g, root as int) {
            if _ev.trace@.contains(TraceEvent::Started(root)) {
                lemma_unset_input_fails(g, root as int, _ev.cache.entries@, res, evaluated, width, height);
            } else if evaluated is Ok {
                lemma_done_started(g, &_ev, root as int);
            }
        }
        assert(evaluated_frame(g, res, root as int, width, height, _ev, evaluated));
    }
    match evaluated {
        Ok(()) => {},
        Err(e) => return Err(FrameError::Evaluate(e)),
    }
    let (_rec, recorded) = record_frame(g, res, root, cmds);
    proof {
        if unconnected(g, root as int) {
            assert(producers_done(g, &_rec, root as int));
        }
    }
    let r = match recorded {
        Ok(()) => Ok(()),
        Err(e) => Err(FrameError::Record(e)),
    };
    proof {
        assert(recorded_frame(g, res, root as int, _rec, old(cmds)@, cmds@, r));
        assert(evaluated_frame(g, res, root as int, width, height, _ev, Ok::<(), EvalError>(())));
    }
    r
}

} // verus!
