//! A tensor as the autodiff core sees it: a backend primitive value bound
//! to its graph node, carrying the registry of everything recorded along
//! its ancestry. The stored valuation of the node is always the
//! single-tensor bundle holding exactly the primitive.

use vstd::prelude::*;

use crate::backend::Backend;
use crate::graph::Graph;
use crate::node::{Node, NodeID, Requirement};
use crate::ops::OpsSpec;
use crate::state::{State, StateStruct, StateView};

verus! {

/// A tensor primitive bound to its node and to the graph registry behind
/// it.
pub struct AutodiffTensor<V, OS> {
    /// The backend's tensor value.
    pub primitive: V,
    /// The node recording identity, parents and gradient requirement.
    pub node: Node,
    /// The registry of nodes, steps and checkpointed states behind this
    /// tensor.
    pub graph: Graph<V, OS>,
}

impl<V, OS: OpsSpec<V>> AutodiffTensor<V, OS> {
    /// The tensor is consistently registered: its graph is well formed,
    /// its node is in the arena with the same requirement, and the node's
    /// recorded value is exactly the single-tensor bundle of `primitive`.
    pub open spec fn wf(self) -> bool {
        &&& self.graph.wf()
        &&& self.node.wf()
        &&& self.graph.nodes@.contains_key(self.node.id.value)
        &&& self.graph.nodes@[self.node.id.value].id == self.node.id
        &&& self.graph.nodes@[self.node.id.value].parents@ == self.node.parents@
        &&& self.graph.nodes@[self.node.id.value].requirement == self.node.requirement
        &&& self.graph.states.value_map().contains_key(self.node.id.value)
        &&& self.graph.states.value_map()[self.node.id.value] == StateView::Tensors(
            seq![self.primitive],
        )
    }

    /// Enter a fresh leaf tensor into the graph: a parentless node that
    /// does not require a gradient, with its value stored explicitly.
    pub fn leaf<B: Backend<V>>(graph: Graph<V, OS>, primitive: V) -> (t: Self)
        requires
            graph.wf(),
            graph.next_id < u64::MAX,
        ensures
            t.wf(),
            t.node.requirement == Requirement::NoGrad,
            t.node.parents@.len() == 0,
            t.primitive == primitive,
            t.graph.next_id == graph.next_id + 1,
            t.node.id.value == graph.next_id,
    {
        let mut graph = graph;
        let node = graph.create_node(Vec::new(), Requirement::NoGrad);
        let copy = B::clone_value(&primitive);
        let mut tensors: Vec<V> = Vec::new();
        tensors.push(copy);
        let stored = State::Struct(StateStruct { tensors });
        proof {
            assert(stored@ == StateView::Tensors(seq![primitive])) by {
                assert(Seq::<V>::empty().push(primitive) =~= seq![primitive]);
            }
        }
        graph.states.register_state(node.id, stored);
        AutodiffTensor { primitive, node, graph }
    }

    /// Mark this tensor's node as requiring a gradient, so the backward
    /// pass propagates into it. Its stored value is untouched.
    pub fn require_grad(self) -> (t: Self)
        requires
            self.wf(),
        ensures
            t.wf(),
            t.node.requirement == Requirement::Grad,
            t.node.id == self.node.id,
            t.node.parents@ == self.node.parents@,
            t.primitive == self.primitive,
            t.graph.states.value_map() == self.graph.states.value_map(),
            t.graph.states.stored_map() == self.graph.states.stored_map(),
            t.graph.states.ops_map() == self.graph.states.ops_map(),
            t.graph.steps@ == self.graph.steps@,
            t.graph.nodes@.dom() == self.graph.nodes@.dom(),
            t.graph.next_id == self.graph.next_id,
    {
        let AutodiffTensor { primitive, node, mut graph } = self;
        let retagged = Node {
            id: node.id,
            parents: node.parents,
            requirement: Requirement::Grad,
        };
        let kept = retagged.duplicate();
        graph.nodes.insert(retagged.id.value, retagged);
        proof {
            assert(graph.nodes@.dom() =~= self.graph.nodes@.dom());
        }
        AutodiffTensor { primitive, node: kept, graph }
    }
}

} // verus!
