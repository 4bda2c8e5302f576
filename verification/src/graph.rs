//! The shared registry behind a family of tensors: the arena of nodes, the
//! backward steps recorded for tracked nodes, and the checkpointing store.
//! Graph fragments from the operands of an operation are merged into one
//! registry backing the new node; node ids stay globally consistent, so a
//! merge is a union of maps that agree wherever they overlap.

use vstd::prelude::*;

use crate::checkpoint::NodeStates;
use crate::idmap::{maps_agree, IdMap};
use crate::node::{Node, NodeID, Requirement};
use crate::ops::{Ops, OpsSpec, OpsStep};
use crate::state::StateView;

verus! {

/// The registry shared by every tensor derived from a common ancestry: the
/// node arena, the recorded backward steps, the checkpointing store, and
/// the next fresh node id.
pub struct Graph<V, OS> {
    /// The node arena, indexed by node id.
    pub nodes: IdMap<Node>,
    /// The single-use backward steps of tracked nodes, indexed by node id.
    pub steps: IdMap<OpsStep<V, OS>>,
    /// The checkpointing store of forward values and operation records.
    pub states: NodeStates<V, Ops<V, OS>>,
    /// The next node id to hand out; larger than every id registered.
    pub next_id: u64,
}

impl<V, OS: OpsSpec<V>> Graph<V, OS> {
    /// Every registered node, step and state is well formed, closed under
    /// parent links, and lies below the next fresh id.
    pub open spec fn wf(self) -> bool {
        &&& self.states.wf()
        &&& forall|id: u64|
            #[trigger] self.nodes@.contains_key(id) ==> {
                let n = self.nodes@[id];
                &&& n.id.value == id
                &&& n.wf()
                &&& forall|j: int|
                    0 <= j < n.parents@.len() ==> self.nodes@.contains_key(
                        (#[trigger] n.parents@[j]).value,
                    )
                &&& id < self.next_id
            }
        &&& forall|id: u64|
            #[trigger] self.steps@.contains_key(id) ==> {
                &&& self.steps@[id].ops_view().node.id.value == id
                &&& !self.steps@[id].is_consumed()
                &&& id < self.next_id
            }
        &&& forall|k: u64| #[trigger] self.states.value_map().contains_key(k) ==> k < self.next_id
        &&& forall|k: u64| #[trigger] self.states.ops_map().contains_key(k) ==> k < self.next_id
    }

    /// Two graphs are compatible when their arenas, steps and stores agree
    /// on every shared node, as fragments of one construction history do.
    pub open spec fn compatible(self, other: Self) -> bool {
        &&& maps_agree(self.nodes@, other.nodes@)
        &&& maps_agree(self.steps@, other.steps@)
        &&& self.states.compatible(other.states)
    }

    /// An empty graph whose ids start at `first_id`.
    pub fn new(first_id: u64) -> (r: Self)
        ensures
            r.wf(),
            r.nodes@ == Map::<u64, Node>::empty(),
            r.steps@ == Map::<u64, OpsStep<V, OS>>::empty(),
            r.states.stored_map() == Map::<u64, StateView<V>>::empty(),
            r.states.ops_map() == Map::<u64, Ops<V, OS>>::empty(),
            r.states.value_map() == Map::<u64, StateView<V>>::empty(),
            r.next_id == first_id,
    {
        Graph {
            nodes: IdMap::new(),
            steps: IdMap::new(),
            states: NodeStates::new(),
            next_id: first_id,
        }
    }

    /// Create a fresh node after all listed parents, with the given
    /// gradient requirement, and enter it into the arena.
    pub fn create_node(&mut self, parents: Vec<NodeID>, requirement: Requirement) -> (r: Node)
        requires
            old(self).wf(),
            old(self).next_id < u64::MAX,
            forall|j: int|
                0 <= j < parents@.len() ==> old(self).nodes@.contains_key(
                    (#[trigger] parents@[j]).value,
                ),
        ensures
            final(self).wf(),
            r.id.value == old(self).next_id,
            r.parents@ == parents@,
            r.requirement == requirement,
            r.wf(),
            !old(self).nodes@.contains_key(r.id.value),
            final(self).nodes@.dom() == old(self).nodes@.dom().insert(r.id.value),
            final(self).nodes@[r.id.value].id == r.id,
            final(self).nodes@[r.id.value].parents@ == r.parents@,
            final(self).nodes@[r.id.value].requirement == r.requirement,
            forall|k: u64|
                k != r.id.value && old(self).nodes@.contains_key(k) ==> final(self).nodes@.contains_key(k)
                    && final(self).nodes@[k] == old(self).nodes@[k],
            final(self).steps@ == old(self).steps@,
            final(self).states == old(self).states,
            final(self).next_id == old(self).next_id + 1,
    {
        let id = NodeID { value: self.next_id };
        let node = Node { id, parents, requirement };
        proof {
            assert forall|j: int| 0 <= j < node.parents@.len() implies (
            #[trigger] node.parents@[j]).value < node.id.value by {
                assert(old(self).nodes@.contains_key(node.parents@[j].value));
            }
        }
        let r = node.duplicate();
        self.nodes.insert(id.value, node);
        self.next_id = self.next_id + 1;
        r
    }

    /// Union this registry with another fragment of the same construction
    /// history: nodes, steps, stored values, operation records and
    /// valuations are united, and ids keep counting above both.
    pub fn merge(&mut self, other: Graph<V, OS>)
        requires
            old(self).wf(),
            other.wf(),
            old(self).compatible(other),
        ensures
            final(self).wf(),
            final(self).nodes@ == old(self).nodes@.union_prefer_right(other.nodes@),
            final(self).steps@ == old(self).steps@.union_prefer_right(other.steps@),
            final(self).states.stored_map() == old(self).states.stored_map().union_prefer_right(
                other.states.stored_map(),
            ),
            final(self).states.ops_map() == old(self).states.ops_map().union_prefer_right(
                other.states.ops_map(),
            ),
            final(self).states.value_map() == old(self).states.value_map().union_prefer_right(
                other.states.value_map(),
            ),
            final(self).next_id == if old(self).next_id >= other.next_id {
                old(self).next_id
            } else {
                other.next_id
            },
    {
        let Graph { nodes, steps, states, next_id } = other;
        self.nodes.merge_from(nodes);
        self.steps.merge_from(steps);
        self.states.merge_from(states);
        if next_id > self.next_id {
            self.next_id = next_id;
        }
    }
}

} // verus!
