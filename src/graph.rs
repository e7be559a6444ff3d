//! The node graph as the engine reads it: nodes with named, typed input and
//! output sockets, and edges from an output socket to an input socket.
use vstd::prelude::*;
use crate::value::{ProtosDataType, ProtosValueType};
use crate::nodes::ProtosNodeTemplate;

verus! {

/// An output socket: output `output` of node `node`.
#[derive(Copy, Clone, Debug, PartialEq, Eq, Structural)]
pub struct OutputRef {
    pub node: usize,
    pub output: usize,
}

/// Whether an input takes a connection, a constant, or either.
#[derive(Copy, Clone, Debug, PartialEq, Eq, Structural)]
pub enum InputParamKind {
    ConnectionOnly,
    ConstantOnly,
    ConnectionOrConstant,
}

/// An input socket: its inline constant is used when nothing is connected.
#[derive(Clone, Debug)]
pub struct InputParam {
    pub name: String,
    pub data_type: ProtosDataType,
    pub value: ProtosValueType,
    pub kind: InputParamKind,
    pub connection: Option<OutputRef>,
}

#[derive(Clone, Debug)]
pub struct OutputParam {
    pub name: String,
    pub data_type: ProtosDataType,
}

#[derive(Clone, Debug)]
pub struct Node {
    pub template: ProtosNodeTemplate,
    pub inputs: Vec<InputParam>,
    pub outputs: Vec<OutputParam>,
}

/// Nodes are identified by their index, which never changes.
#[derive(Clone, Debug)]
pub struct Graph {
    pub nodes: Vec<Node>,
}

impl Graph {
    /// Every edge starts at an output socket that exists.
    pub open spec fn wf(&self) -> bool {
        forall|n: int, k: int| 0 <= n < self.nodes@.len() && 0 <= k < self.nodes@[n].inputs@.len()
            ==> match (#[trigger] self.nodes@[n].inputs@[k]).connection {
                Some(o) => o.node < self.nodes@.len() && o.output < self.nodes@[o.node as int].outputs@.len(),
                None => true,
            }
    }

    /// The output socket that input `k` of node `n` is connected to.
    pub open spec fn source(&self, n: int, k: int) -> Option<OutputRef> {
        self.nodes@[n].inputs@[k].connection
    }

    pub fn new() -> (r: Self)
        ensures
            r.wf(),
            r.nodes@.len() == 0,
    {
        Graph { nodes: Vec::new() }
    }

    /// Adds a node without sockets; its identity is the returned index.
    pub fn add_node(&mut self, template: ProtosNodeTemplate) -> (r: usize)
        requires
            old(self).wf(),
            old(self).nodes@.len() < usize::MAX,
        ensures
            final(self).wf(),
            r == old(self).nodes@.len(),
            final(self).nodes@.len() == old(self).nodes@.len() + 1,
            forall|n: int| 0 <= n < old(self).nodes@.len() ==> final(self).nodes@[n] == old(self).nodes@[n],
            final(self).nodes@[r as int].template == template,
            final(self).nodes@[r as int].inputs@.len() == 0,
            final(self).nodes@[r as int].outputs@.len() == 0,
    {
        let r = self.nodes.len();
        self.nodes.push(Node { template, inputs: Vec::new(), outputs: Vec::new() });
        proof {
            assert forall|n: int, k: int| 0 <= n < self.nodes@.len() && 0 <= k < self.nodes@[n].inputs@.len()
                implies match (#[trigger] self.nodes@[n].inputs@[k]).connection {
                    Some(o) => o.node < self.nodes@.len() && o.output < self.nodes@[o.node as int].outputs@.len(),
                    None => true,
                } by {
                assert(n < r);
                assert(self.nodes@[n] == old(self).nodes@[n]);
            }
        }
        r
    }

    /// Declares an unconnected input socket on node `node`.
    pub fn add_input_param(
        &mut self,
        node: usize,
        name: String,
        data_type: ProtosDataType,
        value: ProtosValueType,
        kind: InputParamKind,
    )
        requires
            old(self).wf(),
            node < old(self).nodes@.len(),
        ensures
            final(self).wf(),
            final(self).nodes@.len() == old(self).nodes@.len(),
            forall|n: int| 0 <= n < old(self).nodes@.len() && n != node ==> final(self).nodes@[n] == old(self).nodes@[n],
            final(self).nodes@[node as int].template == old(self).nodes@[node as int].template,
            final(self).nodes@[node as int].outputs == old(self).nodes@[node as int].outputs,
            final(self).nodes@[node as int].inputs@ == old(self).nodes@[node as int].inputs@.push(
                InputParam { name, data_type, value, kind, connection: None }),
    {
        self.nodes[node].inputs.push(InputParam { name, data_type, value, kind, connection: None });
        proof {
            assert forall|n: int, k: int| 0 <= n < self.nodes@.len() && 0 <= k < self.nodes@[n].inputs@.len()
                implies match (#[trigger] self.nodes@[n].inputs@[k]).connection {
                    Some(o) => o.node < self.nodes@.len() && o.output < self.nodes@[o.node as int].outputs@.len(),
                    None => true,
                } by {
                if n != node {
                    assert(self.nodes@[n] == old(self).nodes@[n]);
                } else if k < old(self).nodes@[n].inputs@.len() {
                    assert(self.nodes@[n].inputs@[k] == old(self).nodes@[n].inputs@[k]);
                }
                if let Some(o) = self.nodes@[n].inputs@[k].connection {
                    assert(self.nodes@[o.node as int].outputs@.len() == old(self).nodes@[o.node as int].outputs@.len());
                }
            }
        }
    }

    /// Declares an output socket on node `node`.
    pub fn add_output_param(&mut self, node: usize, name: String, data_type: ProtosDataType)
        requires
            old(self).wf(),
            node < old(self).nodes@.len(),
        ensures
            final(self).wf(),
            final(self).nodes@.len() == old(self).nodes@.len(),
            forall|n: int| 0 <= n < old(self).nodes@.len() && n != node ==> final(self).nodes@[n] == old(self).nodes@[n],
            final(self).nodes@[node as int].template == old(self).nodes@[node as int].template,
            final(self).nodes@[node as int].inputs == old(self).nodes@[node as int].inputs,
            final(self).nodes@[node as int].outputs@ == old(self).nodes@[node as int].outputs@.push(
                OutputParam { name, data_type }),
    {
        self.nodes[node].outputs.push(OutputParam { name, data_type });
        proof {
            assert forall|n: int, k: int| 0 <= n < self.nodes@.len() && 0 <= k < self.nodes@[n].inputs@.len()
                implies match (#[trigger] self.nodes@[n].inputs@[k]).connection {
                    Some(o) => o.node < self.nodes@.len() && o.output < self.nodes@[o.node as int].outputs@.len(),
                    None => true,
                } by {
                if n != node {
                    assert(self.nodes@[n] == old(self).nodes@[n]);
                }
                assert(self.nodes@[n].inputs@[k] == old(self).nodes@[n].inputs@[k]);
                if let Some(o) = self.nodes@[n].inputs@[k].connection {
                    assert(self.nodes@[o.node as int].outputs@.len() >= old(self).nodes@[o.node as int].outputs@.len());
                }
            }
        }
    }

    /// The first input socket of node `node` named `name`.
    pub fn get_input(&self, node: usize, name: &String) -> (r: Option<usize>)
        requires
            node < self.nodes@.len(),
        ensures
            match r {
                Some(k) => k < self.nodes@[node as int].inputs@.len()
                    && self.nodes@[node as int].inputs@[k as int].name@ == name@
                    && forall|j: int| 0 <= j < k ==> (#[trigger] self.nodes@[node as int].inputs@[j]).name@ != name@,
                None => forall|j: int| 0 <= j < self.nodes@[node as int].inputs@.len()
                    ==> (#[trigger] self.nodes@[node as int].inputs@[j]).name@ != name@,
            },
    {
        let inputs = &self.nodes[node].inputs;
        let mut k: usize = 0;
        while k < inputs.len()
            invariant
                inputs == self.nodes@[node as int].inputs,
                0 <= k <= inputs@.len(),
                forall|j: int| 0 <= j < k ==> (#[trigger] inputs@[j]).name@ != name@,
            decreases inputs@.len() - k,
        {
            if inputs[k].name == *name {
                return Some(k);
            }
            k = k + 1;
        }
        None
    }

    /// The first output socket of node `node` named `name`.
    pub fn get_output(&self, node: usize, name: &String) -> (r: Option<usize>)
        requires
            node < self.nodes@.len(),
        ensures
            match r {
                Some(k) => k < self.nodes@[node as int].outputs@.len()
                    && self.nodes@[node as int].outputs@[k as int].name@ == name@
                    && forall|j: int| 0 <= j < k ==> (#[trigger] self.nodes@[node as int].outputs@[j]).name@ != name@,
                None => forall|j: int| 0 <= j < self.nodes@[node as int].outputs@.len()
                    ==> (#[trigger] self.nodes@[node as int].outputs@[j]).name@ != name@,
            },
    {
        let outputs = &self.nodes[node].outputs;
        let mut k: usize = 0;
        while k < outputs.len()
            invariant
                outputs == self.nodes@[node as int].outputs,
                0 <= k <= outputs@.len(),
                forall|j: int| 0 <= j < k ==> (#[trigger] outputs@[j]).name@ != name@,
            decreases outputs@.len() - k,
        {
            if outputs[k].name == *name {
                return Some(k);
            }
            k = k + 1;
        }
        None
    }

    pub fn connection(&self, node: usize, input: usize) -> (r: Option<OutputRef>)
        requires
            node < self.nodes@.len(),
            input < self.nodes@[node as int].inputs@.len(),
        ensures
            r == self.source(node as int, input as int),
    {
        self.nodes[node].inputs[input].connection
    }

    /// Connects output `from` to input `input` of node `node`, replacing any
    /// previous edge into that input. Refused (false, graph unchanged) when a
    /// socket does not exist or the two sockets have different types.
    pub fn connect(&mut self, from: OutputRef, node: usize, input: usize) -> (r: bool)
        requires
            old(self).wf(),
        ensures
            final(self).wf(),
            r == (node < old(self).nodes@.len() && input < old(self).nodes@[node as int].inputs@.len()
                && from.node < old(self).nodes@.len()
                && from.output < old(self).nodes@[from.node as int].outputs@.len()
                && old(self).nodes@[from.node as int].outputs@[from.output as int].data_type
                    == old(self).nodes@[node as int].inputs@[input as int].data_type),
            !r ==> *final(self) == *old(self),
            r ==> final(self).nodes@.len() == old(self).nodes@.len()
                && (forall|n: int| 0 <= n < old(self).nodes@.len() && n != node ==> final(self).nodes@[n] == old(self).nodes@[n])
                && final(self).nodes@[node as int].template == old(self).nodes@[node as int].template
                && final(self).nodes@[node as int].outputs == old(self).nodes@[node as int].outputs
                && final(self).nodes@[node as int].inputs@ == old(self).nodes@[node as int].inputs@.update(
                    input as int, InputParam { connection: Some(from), ..old(self).nodes@[node as int].inputs@[input as int] }),
    {
        if node >= self.nodes.len() || input >= self.nodes[node].inputs.len() || from.node >= self.nodes.len()
            || from.output >= self.nodes[from.node].outputs.len() {
            return false;
        }
        if self.nodes[from.node].outputs[from.output].data_type != self.nodes[node].inputs[input].data_type {
            return false;
        }
        self.nodes[node].inputs[input].connection = Some(from);
        proof {
            assert forall|n: int, k: int| 0 <= n < self.nodes@.len() && 0 <= k < self.nodes@[n].inputs@.len()
                implies match (#[trigger] self.nodes@[n].inputs@[k]).connection {
                    Some(o) => o.node < self.nodes@.len() && o.output < self.nodes@[o.node as int].outputs@.len(),
                    None => true,
                } by {
                if n != node || k != input {
                    assert(self.nodes@[n].inputs@[k] == old(self).nodes@[n].inputs@[k]);
                }
                if let Some(o) = self.nodes@[n].inputs@[k].connection {
                    assert(self.nodes@[o.node as int].outputs == old(self).nodes@[o.node as int].outputs);
                }
            }
        }
        true
    }

    /// Removes the edge into input `input` of node `node`, if any.
    pub fn disconnect(&mut self, node: usize, input: usize)
        requires
            old(self).wf(),
            node < old(self).nodes@.len(),
            input < old(self).nodes@[node as int].inputs@.len(),
        ensures
            final(self).wf(),
            final(self).nodes@.len() == old(self).nodes@.len(),
            forall|n: int| 0 <= n < old(self).nodes@.len() && n != node ==> final(self).nodes@[n] == old(self).nodes@[n],
            final(self).nodes@[node as int].template == old(self).nodes@[node as int].template,
            final(self).nodes@[node as int].outputs == old(self).nodes@[node as int].outputs,
            final(self).nodes@[node as int].inputs@ == old(self).nodes@[node as int].inputs@.update(
                input as int, InputParam { connection: None, ..old(self).nodes@[node as int].inputs@[input as int] }),
    {
        self.nodes[node].inputs[input].connection = None;
        proof {
            assert forall|n: int, k: int| 0 <= n < self.nodes@.len() && 0 <= k < self.nodes@[n].inputs@.len()
                implies match (#[trigger] self.nodes@[n].inputs@[k]).connection {
                    Some(o) => o.node < self.nodes@.len() && o.output < self.nodes@[o.node as int].outputs@.len(),
                    None => true,
                } by {
                if n != node || k != input {
                    assert(self.nodes@[n].inputs@[k] == old(self).nodes@[n].inputs@[k]);
                }
                if let Some(o) = self.nodes@[n].inputs@[k].connection {
                    assert(self.nodes@[o.node as int].outputs == old(self).nodes@[o.node as int].outputs);
                }
            }
        }
    }

    /// Replaces the inline constant of input `input` of node `node`.
    pub fn set_input_value(&mut self, node: usize, input: usize, value: ProtosValueType)
        requires
            old(self).wf(),
            node < old(self).nodes@.len(),
            input < old(self).nodes@[node as int].inputs@.len(),
        ensures
            final(self).wf(),
            final(self).nodes@.len() == old(self).nodes@.len(),
            forall|n: int| 0 <= n < old(self).nodes@.len() && n != node ==> final(self).nodes@[n] == old(self).nodes@[n],
            final(self).nodes@[node as int].template == old(self).nodes@[node as int].template,
            final(self).nodes@[node as int].outputs == old(self).nodes@[node as int].outputs,
            final(self).nodes@[node as int].inputs@ == old(self).nodes@[node as int].inputs@.update(
                input as int, InputParam { value, ..old(self).nodes@[node as int].inputs@[input as int] }),
    {
        self.nodes[node].inputs[input].value = value;
        proof {
            assert forall|n: int, k: int| 0 <= n < self.nodes@.len() && 0 <= k < self.nodes@[n].inputs@.len()
                implies match (#[trigger] self.nodes@[n].inputs@[k]).connection {
                    Some(o) => o.node < self.nodes@.len() && o.output < self.nodes@[o.node as int].outputs@.len(),
                    None => true,
                } by {
                if n != node || k != input {
                    assert(self.nodes@[n].inputs@[k] == old(self).nodes@[n].inputs@[k]);
                }
                if let Some(o) = self.nodes@[n].inputs@[k].connection {
                    assert(self.nodes@[o.node as int].outputs == old(self).nodes@[o.node as int].outputs);
                }
            }
        }
    }
}

} // verus!
