//! Preparation of one tensor-producing operation, as a three-mode state
//! machine: from the initial mode the combined requirement of the operands
//! decides between tracked and untracked; finishing an untracked operation
//! just builds the result node, while finishing a tracked one also
//! registers the operation record, stores the output eagerly when the
//! operation is compute-bound, and records a single-use backward step.

use core::marker::PhantomData;
use vstd::prelude::*;

use crate::backend::Backend;
use crate::checkpoint::parent_views;
use crate::graph::Graph;
use crate::node::{Node, NodeID, Requirement};
use crate::ops::{Bottleneck, Ops, OpsSpec, OpsStep};
use crate::state::{assemble_input, is_bundle, State, StateStruct, StateView};
use crate::tensor::AutodiffTensor;

verus! {

/// The ids of a list of operand nodes, in order.
pub open spec fn operand_ids(nodes: Seq<Node>) -> Seq<NodeID> {
    Seq::new(nodes.len(), |j: int| nodes[j].id)
}

/// Initial preparation mode.
pub struct Init;

/// Preparation mode of an operation whose result requires a gradient.
pub struct RecordedMode;

/// Preparation mode of an operation whose result does not require a
/// gradient.
pub struct UnRecordedMode;

/// An operation in preparation: the operand nodes, the merged registry
/// behind them, the combined gradient requirement, and the operation
/// specification.
pub struct OpsPrep<V, OS, Mode> {
    /// The operand nodes, in declaration order.
    pub nodes: Vec<Node>,
    /// The registry merged from the operands' graphs.
    pub graph: Graph<V, OS>,
    /// The combined requirement of the operands.
    pub requirement: Requirement,
    /// The operation specification.
    pub ops_spec: OS,
    /// Preparation mode tag.
    pub marker: PhantomData<Mode>,
}

/// The two finishing modes an initial preparation can move to.
pub enum OpsKind<V, OS> {
    /// The result requires a gradient: a backward step will be recorded.
    Recorded(OpsPrep<V, OS, RecordedMode>),
    /// No operand requires a gradient: only the result node is built.
    UnRecorded(OpsPrep<V, OS, UnRecordedMode>),
}

impl<V, OS: OpsSpec<V>, Mode> OpsPrep<V, OS, Mode> {
    /// The preparation is consistent: the registry is well formed and
    /// every operand node is registered with a usable value bundle.
    pub open spec fn wf(self) -> bool {
        &&& self.graph.wf()
        &&& forall|j: int|
            0 <= j < self.nodes@.len() ==> {
                let nd = #[trigger] self.nodes@[j];
                &&& self.graph.nodes@.contains_key(nd.id.value)
                &&& self.graph.states.value_map().contains_key(nd.id.value)
                &&& is_bundle(self.graph.states.value_map()[nd.id.value])
            }
    }

    /// Bind operand nodes, their merged registry, the combined requirement
    /// and an operation specification.
    pub fn new(nodes: Vec<Node>, graph: Graph<V, OS>, requirement: Requirement, ops_spec: OS) -> (r:
        Self)
        ensures
            r.nodes == nodes,
            r.graph == graph,
            r.requirement == requirement,
            r.ops_spec == ops_spec,
    {
        OpsPrep { nodes, graph, requirement, ops_spec, marker: PhantomData }
    }

    /// The operand ids, as the parent vector of the result node.
    fn parent_id_vec(&self) -> (r: Vec<NodeID>)
        ensures
            r@ == operand_ids(self.nodes@),
    {
        let mut pids: Vec<NodeID> = Vec::new();
        let n = self.nodes.len();
        let mut j: usize = 0;
        while j < n
            invariant
                j <= n,
                n == self.nodes@.len(),
                pids@.len() == j,
                forall|k: int| 0 <= k < j ==> pids@[k] == self.nodes@[k].id,
            decreases n - j,
        {
            pids.push(self.nodes[j].id);
            j = j + 1;
        }
        proof {
            assert(pids@ =~= operand_ids(self.nodes@));
        }
        pids
    }

    /// The operand references the operation record keeps: an id for each
    /// parent that requires a gradient, a blank for each that does not.
    fn parent_ref_vec(&self) -> (r: Vec<Option<NodeID>>)
        ensures
            r@.len() == self.nodes@.len(),
            forall|k: int|
                0 <= k < r@.len() ==> r@[k] == if self.nodes@[k].requirement
                    == Requirement::Grad {
                    Some(self.nodes@[k].id)
                } else {
                    None::<NodeID>
                },
    {
        let mut refs: Vec<Option<NodeID>> = Vec::new();
        let n = self.nodes.len();
        let mut j: usize = 0;
        while j < n
            invariant
                j <= n,
                n == self.nodes@.len(),
                refs@.len() == j,
                forall|k: int|
                    0 <= k < j ==> refs@[k] == if self.nodes@[k].requirement
                        == Requirement::Grad {
                        Some(self.nodes@[k].id)
                    } else {
                        None::<NodeID>
                    },
            decreases n - j,
        {
            if self.nodes[j].requires_grad() {
                refs.push(Some(self.nodes[j].id));
            } else {
                refs.push(None);
            }
            j = j + 1;
        }
        refs
    }
}

impl<V, OS: OpsSpec<V>> OpsPrep<V, OS, Init> {
    /// Decide the finishing mode from the combined requirement of the
    /// operands: tracked when any operand requires a gradient.
    pub fn stateful(self) -> (r: OpsKind<V, OS>)
        ensures
            match r {
                OpsKind::Recorded(p) => self.requirement != Requirement::NoGrad && p.nodes
                    == self.nodes && p.graph == self.graph && p.requirement == self.requirement
                    && p.ops_spec == self.ops_spec,
                OpsKind::UnRecorded(p) => self.requirement == Requirement::NoGrad && p.nodes
                    == self.nodes && p.graph == self.graph && p.requirement == self.requirement
                    && p.ops_spec == self.ops_spec,
            },
    {
        let OpsPrep { nodes, graph, requirement, ops_spec, marker: _ } = self;
        if requirement.is_no_grad() {
            OpsKind::UnRecorded(OpsPrep::new(nodes, graph, requirement, ops_spec))
        } else {
            OpsKind::Recorded(OpsPrep::new(nodes, graph, requirement, ops_spec))
        }
    }

    /// Prepare an operation that keeps no backward state: the result node
    /// is built and its value recorded, but no step is registered.
    pub fn stateless<B: Backend<V>>(self, output: V) -> (t: AutodiffTensor<V, OS>)
        requires
            self.wf(),
            self.graph.next_id < u64::MAX,
        ensures
            t.wf(),
            t.primitive == output,
            t.node.requirement == self.requirement,
            t.node.parents@ == operand_ids(self.nodes@),
            t.node.id.value == self.graph.next_id,
            t.graph.steps@ == self.graph.steps@,
            t.graph.states.ops_map() == self.graph.states.ops_map(),
            t.graph.states.value_map() == self.graph.states.value_map().insert(
                t.node.id.value,
                StateView::Tensors(seq![output]),
            ),
    {
        match self.stateful() {
            OpsKind::Recorded(prep) => prep.finish::<B>(None, output),
            OpsKind::UnRecorded(prep) => prep.finish::<B>(output),
        }
    }
}

impl<V, OS: OpsSpec<V>> OpsPrep<V, OS, UnRecordedMode> {
    /// Finish an untracked operation: build the result node over the
    /// operands, record its value, and register no backward step.
    pub fn finish<B: Backend<V>>(self, output: V) -> (t: AutodiffTensor<V, OS>)
        requires
            self.wf(),
            self.graph.next_id < u64::MAX,
        ensures
            t.wf(),
            t.primitive == output,
            t.node.requirement == self.requirement,
            t.node.parents@ == operand_ids(self.nodes@),
            t.node.id.value == self.graph.next_id,
            t.graph.steps@ == self.graph.steps@,
            t.graph.states.ops_map() == self.graph.states.ops_map(),
            t.graph.states.value_map() == self.graph.states.value_map().insert(
                t.node.id.value,
                StateView::Tensors(seq![output]),
            ),
    {
        let pids = self.parent_id_vec();
        let OpsPrep { nodes: _, mut graph, requirement, ops_spec: _, marker: _ } = self;
        proof {
            assert(!graph.states.value_map().contains_key(graph.next_id));
        }
        let node = graph.create_node(pids, requirement);
        let copy = B::clone_value(&output);
        let mut ts: Vec<V> = Vec::new();
        ts.push(copy);
        let stored = State::Struct(StateStruct { tensors: ts });
        proof {
            assert(stored@ == StateView::Tensors(seq![output])) by {
                assert(Seq::<V>::empty().push(output) =~= seq![output]);
            }
        }
        graph.states.register_state(node.id, stored);
        AutodiffTensor { primitive: output, node, graph }
    }
}

impl<V, OS: OpsSpec<V>> OpsPrep<V, OS, RecordedMode> {
    /// Finish a tracked operation. With a specification in hand this
    /// registers the operation record for the new node, stores the output
    /// eagerly exactly when the operation is compute-bound, and records a
    /// single-use backward step; without one it only builds the node, as
    /// the untracked finish does.
    pub fn finish<B: Backend<V>>(self, ops_spec: Option<OS>, output: V) -> (t: AutodiffTensor<
        V,
        OS,
    >)
        requires
            self.wf(),
            self.graph.next_id < u64::MAX,
            match ops_spec {
                Some(os) => match assemble_input(
                    parent_views(self.graph.states.value_map(), operand_ids(self.nodes@)),
                ) {
                    Some(inp) => os.spec_forward(inp) == StateView::Tensors(seq![output]),
                    None => false,
                },
                None => true,
            },
        ensures
            t.wf(),
            t.primitive == output,
            t.node.requirement == self.requirement,
            t.node.parents@ == operand_ids(self.nodes@),
            t.node.id.value == self.graph.next_id,
            t.graph.states.value_map() == self.graph.states.value_map().insert(
                t.node.id.value,
                StateView::Tensors(seq![output]),
            ),
            match ops_spec {
                Some(os) => {
                    &&& t.graph.states.ops_map().contains_key(t.node.id.value)
                    &&& t.graph.steps@.contains_key(t.node.id.value)
                    &&& !t.graph.steps@[t.node.id.value].is_consumed()
                    &&& t.graph.steps@[t.node.id.value].spec_view() == os
                    &&& t.graph.steps@[t.node.id.value].ops_view().node.id == t.node.id
                    &&& t.graph.steps@[t.node.id.value].ops_view().node.parents@
                        == t.node.parents@
                    &&& (os.spec_bottleneck() == Bottleneck::ComputeBound
                        <==> t.graph.states.stored_map().contains_key(t.node.id.value))
                },
                None => {
                    &&& t.graph.steps@ == self.graph.steps@
                    &&& t.graph.states.ops_map() == self.graph.states.ops_map()
                },
            },
    {
        match ops_spec {
            None => {
                let pids = self.parent_id_vec();
                let OpsPrep { nodes: _, mut graph, requirement, ops_spec: _, marker: _ } = self;
                proof {
                    assert(!graph.states.value_map().contains_key(graph.next_id));
                }
                let node = graph.create_node(pids, requirement);
                let copy = B::clone_value(&output);
                let mut ts: Vec<V> = Vec::new();
                ts.push(copy);
                let stored = State::Struct(StateStruct { tensors: ts });
                proof {
                    assert(stored@ == StateView::Tensors(seq![output])) by {
                        assert(Seq::<V>::empty().push(output) =~= seq![output]);
                    }
                }
                graph.states.register_state(node.id, stored);
                AutodiffTensor { primitive: output, node, graph }
            },
            Some(os) => {
                let pids = self.parent_id_vec();
                let refs_record = self.parent_ref_vec();
                let refs_step = self.parent_ref_vec();
                let OpsPrep { nodes: _, mut graph, requirement, ops_spec: _, marker: _ } = self;
                proof {
                    assert(!graph.states.value_map().contains_key(graph.next_id));
                }
                let node = graph.create_node(pids, requirement);
                let os_step = os.duplicate();
                let os_for_step_ops = os.duplicate();
                let record = Ops::new(refs_record, node.duplicate(), os);
                let step_ops = Ops::new(refs_step, node.duplicate(), os_for_step_ops);
                let ghost inp = assemble_input(
                    parent_views(graph.states.value_map(), node.parents@),
                ).unwrap();
                proof {
                    assert(operand_ids(self.nodes@) == node.parents@);
                    assert forall|k: int| 0 <= k < node.parents@.len() implies
                        graph.states.value_map().contains_key(
                        (#[trigger] node.parents@[k]).value,
                    ) by {
                        assert(node.parents@[k] == self.nodes@[k].id);
                    }
                }
                let copy = B::clone_value(&output);
                let mut ts: Vec<V> = Vec::new();
                ts.push(copy);
                let stored = State::Struct(StateStruct { tensors: ts });
                proof {
                    assert(stored@ == StateView::Tensors(seq![output])) by {
                        assert(Seq::<V>::empty().push(output) =~= seq![output]);
                    }
                }
                match record.ops_spec.bottleneck() {
                    Bottleneck::ComputeBound => {
                        graph.states.register(node.id, stored, record);
                    },
                    Bottleneck::MemoryBound => {
                        graph.states.register_operation(node.id, record);
                    },
                }
                let step = OpsStep::new(step_ops, os_step);
                graph.steps.insert(node.id.value, step);
                proof {
                    assert forall|id: u64| #[trigger] graph.steps@.contains_key(id) implies {
                        &&& graph.steps@[id].ops_view().node.id.value == id
                        &&& !graph.steps@[id].is_consumed()
                        &&& id < graph.next_id
                    } by {
                        if id != node.id.value {
                            assert(self.graph.steps@.contains_key(id));
                        }
                    }
                }
                AutodiffTensor { primitive: output, node, graph }
            },
        }
    }
}

} // verus!
