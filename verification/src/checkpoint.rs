//! The checkpointing store: given a node identity, hand back its forward
//! value, either by consuming the stored copy or by recomputing it on
//! demand from the parents' values. A stored entry is consumed at most once
//! per read; recomputed values are never cached. The store carries a ghost
//! valuation of every registered node, and every answer it gives equals
//! that valuation — which is why the gradients of a backward pass do not
//! depend on which nodes were stored and which are recomputed.

use vstd::prelude::*;

use crate::error::AutodiffError;
use crate::idmap::{maps_agree, IdMap};
use crate::node::{Node, NodeID};
use crate::ops::Operation;
use crate::state::{assemble_input, views_of, State, StateStruct, StateView};

verus! {

/// The forward values of a node's parents, in parent order.
pub open spec fn parent_views<V>(values: Map<u64, StateView<V>>, parents: Seq<NodeID>) -> Seq<
    StateView<V>,
> {
    Seq::new(parents.len(), |j: int| values[parents[j].value])
}

/// An operation record is consistent with a valuation when its node is well
/// formed, all parents have values, and the node's value is exactly the
/// operation's forward function applied to the assembled parent values.
pub open spec fn op_consistent<V, Op: Operation<V>>(
    op: Op,
    id: u64,
    values: Map<u64, StateView<V>>,
) -> bool {
    let node = op.spec_node();
    &&& node.id.value == id
    &&& node.wf()
    &&& values.contains_key(id)
    &&& forall|j: int|
        0 <= j < node.parents@.len() ==> values.contains_key((#[trigger] node.parents@[j]).value)
    &&& match assemble_input(parent_views(values, node.parents@)) {
        Some(inp) => values[id] == op.spec_forward(inp),
        None => false,
    }
}

/// A store is consistent with a valuation when every stored entry equals
/// the valuation and every operation record is consistent with it.
pub open spec fn consistent<V, Op: Operation<V>>(
    stored: Map<u64, StateView<V>>,
    ops: Map<u64, Op>,
    values: Map<u64, StateView<V>>,
) -> bool {
    &&& stored.dom().subset_of(values.dom())
    &&& forall|id: u64| stored.contains_key(id) ==> #[trigger] stored[id] == values[id]
    &&& forall|id: u64| #[trigger] ops.contains_key(id) ==> op_consistent(ops[id], id, values)
}

/// What one demand for a node's output does to the store: consume the
/// stored entry if there is one; otherwise replay the operation record on
/// the recursively fetched parent outputs; otherwise fail. Returns the
/// answer together with the store left behind.
pub open spec fn take_output<V, Op: Operation<V>>(
    states: Map<u64, StateView<V>>,
    ops: Map<u64, Op>,
    id: u64,
) -> (Result<StateView<V>, AutodiffError>, Map<u64, StateView<V>>)
    decreases id, 1int, 0int,
{
    if states.contains_key(id) {
        (Ok(states[id]), states.remove(id))
    } else if ops.contains_key(id) {
        let node = ops[id].spec_node();
        let fetched = take_parents(states, ops, node.parents@, id);
        match fetched.0 {
            Ok(list) => match assemble_input(list) {
                Some(inp) => (Ok(ops[id].spec_forward(inp)), fetched.1),
                None => (Err(AutodiffError::StateMismatch), fetched.1),
            },
            Err(e) => (Err(e), fetched.1),
        }
    } else {
        (Err(AutodiffError::MissingRecord { id: NodeID { value: id } }), states)
    }
}

/// Fetch the outputs of a parent list in order, threading the consumption
/// of stored entries from one fetch to the next. Parents of a well-formed
/// node all lie below `bound`.
pub open spec fn take_parents<V, Op: Operation<V>>(
    states: Map<u64, StateView<V>>,
    ops: Map<u64, Op>,
    parents: Seq<NodeID>,
    bound: u64,
) -> (Result<Seq<StateView<V>>, AutodiffError>, Map<u64, StateView<V>>)
    decreases bound, 0int, parents.len(),
{
    if parents.len() == 0 {
        (Ok(Seq::empty()), states)
    } else if parents[0].value < bound {
        let first = take_output(states, ops, parents[0].value);
        match first.0 {
            Ok(v) => {
                let rest = take_parents(first.1, ops, parents.drop_first(), bound);
                match rest.0 {
                    Ok(vs) => (Ok(seq![v] + vs), rest.1),
                    Err(e) => (Err(e), rest.1),
                }
            },
            Err(e) => (Err(e), first.1),
        }
    } else {
        (Err(AutodiffError::MissingRecord { id: parents[0] }), states)
    }
}

/// The checkpointing store: stored forward values and registered operation
/// records, keyed by node identity, together with the ghost valuation that
/// registration built up.
pub struct NodeStates<V, Op> {
    states: IdMap<State<V>>,
    operations: IdMap<Op>,
    values: Ghost<Map<u64, StateView<V>>>,
}

impl<V, Op: Operation<V>> NodeStates<V, Op> {
    /// The stored forward values, as mathematical state views.
    pub closed spec fn stored_map(self) -> Map<u64, StateView<V>> {
        self.states@.map_values(|s: State<V>| s@)
    }

    /// The registered operation records.
    pub closed spec fn ops_map(self) -> Map<u64, Op> {
        self.operations@
    }

    /// The valuation of every node registered so far.
    pub closed spec fn value_map(self) -> Map<u64, StateView<V>> {
        self.values@
    }

    /// Every stored entry and operation record agrees with the valuation.
    pub open spec fn wf(self) -> bool {
        consistent(self.stored_map(), self.ops_map(), self.value_map())
    }

    /// An empty store.
    pub fn new() -> (r: Self)
        ensures
            r.wf(),
            r.stored_map() == Map::<u64, StateView<V>>::empty(),
            r.ops_map() == Map::<u64, Op>::empty(),
            r.value_map() == Map::<u64, StateView<V>>::empty(),
    {
        let r = NodeStates {
            states: IdMap::new(),
            operations: IdMap::new(),
            values: Ghost(Map::empty()),
        };
        proof {
            assert(r.stored_map() =~= Map::<u64, StateView<V>>::empty());
        }
        r
    }

    /// Record the forward value of a leaf node, which has no operation
    /// record: its value exists only as this stored entry.
    pub fn register_state(&mut self, node_id: NodeID, state: State<V>)
        requires
            old(self).wf(),
            !old(self).value_map().contains_key(node_id.value),
        ensures
            final(self).wf(),
            final(self).stored_map() == old(self).stored_map().insert(node_id.value, state@),
            final(self).ops_map() == old(self).ops_map(),
            final(self).value_map() == old(self).value_map().insert(node_id.value, state@),
    {
        let ghost v = state@;
        self.states.insert(node_id.value, state);
        proof {
            self.values@ = self.values@.insert(node_id.value, v);
            assert(self.stored_map() =~= old(self).stored_map().insert(node_id.value, v));
            lemma_valuation_extend_consistent(
                old(self).stored_map(),
                old(self).ops_map(),
                old(self).value_map(),
                node_id.value,
                v,
            );
        }
    }

    /// Record the operation record of a tracked node whose output is cheap
    /// to recompute: no value is stored, the valuation alone remembers the
    /// forward result.
    pub fn register_operation(&mut self, node_id: NodeID, operation: Op)
        requires
            old(self).wf(),
            !old(self).value_map().contains_key(node_id.value),
            operation.spec_node().id.value == node_id.value,
            operation.spec_node().wf(),
            forall|j: int|
                0 <= j < operation.spec_node().parents@.len() ==> old(
                    self,
                ).value_map().contains_key(
                    (#[trigger] operation.spec_node().parents@[j]).value,
                ),
            assemble_input(
                parent_views(old(self).value_map(), operation.spec_node().parents@),
            ) is Some,
        ensures
            final(self).wf(),
            final(self).stored_map() == old(self).stored_map(),
            final(self).ops_map() == old(self).ops_map().insert(node_id.value, operation),
            final(self).value_map() == old(self).value_map().insert(
                node_id.value,
                operation.spec_forward(
                    assemble_input(
                        parent_views(old(self).value_map(), operation.spec_node().parents@),
                    ).unwrap(),
                ),
            ),
    {
        let ghost inp = assemble_input(
            parent_views(old(self).value_map(), operation.spec_node().parents@),
        ).unwrap();
        let ghost v = operation.spec_forward(inp);
        self.operations.insert(node_id.value, operation);
        proof {
            self.values@ = self.values@.insert(node_id.value, v);
            lemma_valuation_extend_consistent(
                old(self).stored_map(),
                old(self).ops_map(),
                old(self).value_map(),
                node_id.value,
                v,
            );
            assert(parent_views(self.value_map(), operation.spec_node().parents@)
                =~= parent_views(old(self).value_map(), operation.spec_node().parents@));
        }
    }

    /// Record both the operation record and the eagerly stored output of a
    /// tracked, compute-bound node. The stored state must be exactly what
    /// the operation's forward function yields on the parents' values.
    pub fn register(&mut self, node_id: NodeID, state: State<V>, operation: Op)
        requires
            old(self).wf(),
            !old(self).value_map().contains_key(node_id.value),
            operation.spec_node().id.value == node_id.value,
            operation.spec_node().wf(),
            forall|j: int|
                0 <= j < operation.spec_node().parents@.len() ==> old(
                    self,
                ).value_map().contains_key(
                    (#[trigger] operation.spec_node().parents@[j]).value,
                ),
            match assemble_input(
                parent_views(old(self).value_map(), operation.spec_node().parents@),
            ) {
                Some(inp) => state@ == operation.spec_forward(inp),
                None => false,
            },
        ensures
            final(self).wf(),
            final(self).stored_map() == old(self).stored_map().insert(node_id.value, state@),
            final(self).ops_map() == old(self).ops_map().insert(node_id.value, operation),
            final(self).value_map() == old(self).value_map().insert(node_id.value, state@),
    {
        let ghost v = state@;
        self.states.insert(node_id.value, state);
        self.operations.insert(node_id.value, operation);
        proof {
            self.values@ = self.values@.insert(node_id.value, v);
            assert(self.stored_map() =~= old(self).stored_map().insert(node_id.value, v));
            lemma_valuation_extend_consistent(
                old(self).stored_map(),
                old(self).ops_map(),
                old(self).value_map(),
                node_id.value,
                v,
            );
            assert(parent_views(self.value_map(), operation.spec_node().parents@)
                =~= parent_views(old(self).value_map(), operation.spec_node().parents@));
        }
    }

    /// The forward value of a node: the stored copy if there is one —
    /// consumed, so a second read recomputes — and otherwise a replay of
    /// the node's operation on the recursively fetched parent outputs.
    /// The answer and the consumption it causes are exactly what
    /// `take_output` describes, and every successful answer equals the
    /// node's value under the valuation, stored or not.
    pub fn get_output(&mut self, node_id: &NodeID) -> (r: Result<State<V>, AutodiffError>)
        requires
            old(self).wf(),
        ensures
            final(self).wf(),
            final(self).value_map() == old(self).value_map(),
            final(self).ops_map() == old(self).ops_map(),
            final(self).stored_map().submap_of(old(self).stored_map()),
            ({
                let fetched = take_output(
                    old(self).stored_map(),
                    old(self).ops_map(),
                    node_id.value,
                );
                &&& final(self).stored_map() == fetched.1
                &&& match r {
                    Ok(s) => fetched.0 matches Ok(v) && s@ == v,
                    Err(e) => fetched.0 matches Err(e2) && e == e2,
                }
            }),
            r matches Ok(s) ==> old(self).value_map().contains_key(node_id.value) && s@ == old(
                self,
            ).value_map()[node_id.value],
        decreases node_id.value, 1int,
    {
        proof {
            lemma_take_output_sound(
                old(self).stored_map(),
                old(self).ops_map(),
                old(self).value_map(),
                node_id.value,
            );
        }
        let taken = self.states.take(node_id.value);
        match taken {
            Some(s) => {
                proof {
                    assert(old(self).stored_map().contains_key(node_id.value));
                    assert(self.stored_map() =~= old(self).stored_map().remove(node_id.value));
                }
                Ok(s)
            },
            None => {
                proof {
                    assert(self.stored_map() =~= old(self).stored_map());
                }
                let node = match self.operations.get(node_id.value) {
                    None => {
                        return Err(AutodiffError::MissingRecord { id: *node_id });
                    },
                    Some(op) => op.node().duplicate(),
                };
                proof {
                    assert(op_consistent(
                        old(self).ops_map()[node_id.value],
                        node_id.value,
                        old(self).value_map(),
                    ));
                }
                let input = match self.get_input(&node) {
                    Ok(inp) => inp,
                    Err(e) => {
                        return Err(e);
                    },
                };
                let op = self.operations.get(node_id.value).unwrap();
                let out = op.forward(input);
                Ok(out)
            },
        }
    }

    /// The input bundle of a node: the outputs of all its parents, fetched
    /// in declaration order with consumption threaded from one fetch to
    /// the next, assembled into one bundle.
    #[verifier::loop_isolation(false)]
    pub fn get_input(&mut self, node: &Node) -> (r: Result<State<V>, AutodiffError>)
        requires
            old(self).wf(),
            node.wf(),
        ensures
            final(self).wf(),
            final(self).value_map() == old(self).value_map(),
            final(self).ops_map() == old(self).ops_map(),
            final(self).stored_map().submap_of(old(self).stored_map()),
            ({
                let fetched = take_parents(
                    old(self).stored_map(),
                    old(self).ops_map(),
                    node.parents@,
                    node.id.value,
                );
                &&& final(self).stored_map() == fetched.1
                &&& match fetched.0 {
                    Ok(list) => match assemble_input(list) {
                        Some(inp) => r matches Ok(s) && s@ == inp,
                        None => r matches Err(e) && e == AutodiffError::StateMismatch,
                    },
                    Err(e) => r matches Err(e2) && e2 == e,
                }
            }),
        decreases node.id.value, 0int,
    {
        let ghost s0 = old(self).stored_map();
        let ghost opsm = old(self).ops_map();
        let ghost bound = node.id.value;
        let mut outputs: Vec<State<V>> = Vec::new();
        proof {
            assert(node.parents@.skip(0) =~= node.parents@);
            assert(views_of(outputs@) =~= Seq::<StateView<V>>::empty());
            let tp = take_parents(s0, opsm, node.parents@, bound);
            match tp.0 {
                Ok(list) => {
                    assert(Seq::<StateView<V>>::empty() + list =~= list);
                },
                Err(_) => {},
            }
        }
        let n = node.parents.len();
        let mut j: usize = 0;
        while j < n
            invariant
                j <= n,
                n == node.parents@.len(),
                node.wf(),
                self.wf(),
                self.value_map() == old(self).value_map(),
                self.ops_map() == opsm,
                self.stored_map().submap_of(s0),
                outputs@.len() == j,
                prepend_outputs(
                    views_of(outputs@),
                    take_parents(self.stored_map(), opsm, node.parents@.skip(j as int), bound),
                ) == take_parents(s0, opsm, node.parents@, bound),
            decreases n - j,
        {
            let ghost pre_stored = self.stored_map();
            let ghost pre_views = views_of(outputs@);
            let ghost tail = node.parents@.skip(j as int);
            proof {
                assert(tail[0] == node.parents@[j as int]);
                assert(node.parents@[j as int].value < bound);
                assert(tail.drop_first() =~= node.parents@.skip(j as int + 1));
            }
            let p = node.parents[j];
            match self.get_output(&p) {
                Err(e) => {
                    proof {
                        lemma_submap_trans(self.stored_map(), pre_stored, s0);
                        let first = take_output(pre_stored, opsm, p.value);
                        assert(take_parents(pre_stored, opsm, tail, bound).1 == first.1);
                        assert(take_parents(s0, opsm, node.parents@, bound) == (
                            Err::<Seq<StateView<V>>, AutodiffError>(e),
                            self.stored_map(),
                        ));
                    }
                    return Err(e);
                },
                Ok(s) => {
                    let ghost sv = s@;
                    outputs.push(s);
                    proof {
                        lemma_submap_trans(self.stored_map(), pre_stored, s0);
                        assert(views_of(outputs@) =~= pre_views.push(sv));
                        let first = take_output(pre_stored, opsm, p.value);
                        let rest = take_parents(first.1, opsm, tail.drop_first(), bound);
                        assert(first.0 matches Ok(v) && v == sv);
                        match rest.0 {
                            Ok(vs) => {
                                assert(pre_views + (seq![sv] + vs) =~= pre_views.push(sv) + vs);
                            },
                            Err(_) => {},
                        }
                    }
                },
            }
            j = j + 1;
        }
        proof {
            assert(node.parents@.skip(n as int) =~= Seq::<NodeID>::empty());
            let views = views_of(outputs@);
            assert(views + Seq::<StateView<V>>::empty() =~= views);
            assert(take_parents(s0, opsm, node.parents@, bound) == (
                Ok::<Seq<StateView<V>>, AutodiffError>(views),
                self.stored_map(),
            ));
        }
        outputs_to_input(outputs)
    }

    /// Two stores are compatible when their stored values, operation
    /// records and valuations agree on every shared node, as two fragments
    /// of one construction history do.
    pub open spec fn compatible(self, other: Self) -> bool {
        &&& maps_agree(self.stored_map(), other.stored_map())
        &&& maps_agree(self.ops_map(), other.ops_map())
        &&& maps_agree(self.value_map(), other.value_map())
    }

    /// Union this store with a compatible fragment: stored values,
    /// operation records and valuations are united.
    pub fn merge_from(&mut self, other: Self)
        requires
            old(self).wf(),
            other.wf(),
            old(self).compatible(other),
        ensures
            final(self).wf(),
            final(self).stored_map() == old(self).stored_map().union_prefer_right(
                other.stored_map(),
            ),
            final(self).ops_map() == old(self).ops_map().union_prefer_right(other.ops_map()),
            final(self).value_map() == old(self).value_map().union_prefer_right(
                other.value_map(),
            ),
    {
        let ghost ostored = other.stored_map();
        let ghost oops = other.ops_map();
        let ghost ovals = other.value_map();
        let NodeStates { states, operations, values } = other;
        self.states.merge_from(states);
        self.operations.merge_from(operations);
        proof {
            self.values@ = self.values@.union_prefer_right(ovals);
            let vu = self.value_map();
            let va = old(self).value_map();
            assert(self.stored_map() =~= old(self).stored_map().union_prefer_right(ostored));
            assert(va.submap_of(vu)) by {
                assert forall|k: u64| #[trigger] va.dom().contains(k) implies vu.dom().contains(
                    k,
                ) && va[k] == vu[k] by {
                    if ovals.contains_key(k) {
                        assert(va[k] == ovals[k]);
                    }
                }
            }
            assert(ovals.submap_of(vu));
            assert forall|id: u64| #[trigger] self.ops_map().contains_key(id) implies op_consistent(
                self.ops_map()[id],
                id,
                vu,
            ) by {
                if oops.contains_key(id) {
                    lemma_op_consistent_grow(self.ops_map()[id], id, ovals, vu);
                } else {
                    lemma_op_consistent_grow(self.ops_map()[id], id, va, vu);
                }
            }
            assert forall|id: u64| self.stored_map().contains_key(id) implies #[trigger] self.stored_map()[id]
                == vu[id] && vu.dom().contains(id) by {
                if ostored.contains_key(id) {
                    assert(self.stored_map()[id] == ostored[id]);
                    assert(ostored[id] == ovals[id]);
                } else {
                    assert(self.stored_map()[id] == old(self).stored_map()[id]);
                }
            }
        }
    }

    /// The registered operation record of a node, if any.
    pub fn get_ops_from_node_id(&self, node_id: &NodeID) -> (r: Option<&Op>)
        ensures
            match r {
                Some(op) => self.ops_map().contains_key(node_id.value) && *op
                    == self.ops_map()[node_id.value],
                None => !self.ops_map().contains_key(node_id.value),
            },
    {
        self.operations.get(node_id.value)
    }
}

/// Assemble a list of parent outputs into one input bundle: the leading
/// tensor of each output, in order. Fails when some output carries no
/// tensor to take.
#[verifier::loop_isolation(false)]
pub fn outputs_to_input<V>(outputs: Vec<State<V>>) -> (r: Result<State<V>, AutodiffError>)
    ensures
        match assemble_input(views_of(outputs@)) {
            Some(inp) => r matches Ok(s) && s@ == inp,
            None => r matches Err(e) && e == AutodiffError::StateMismatch,
        },
{
    let ghost views = views_of(outputs@);
    let mut rest = outputs;
    let mut tensors: Vec<V> = Vec::new();
    let mut j: usize = 0;
    let n = rest.len();
    while rest.len() > 0
        invariant
            j + rest@.len() == n,
            n == views.len(),
            views_of(rest@) == views.skip(j as int),
            tensors@.len() == j,
            forall|i: int| 0 <= i < j ==> crate::state::is_bundle(#[trigger] views[i]),
            forall|i: int|
                0 <= i < j ==> tensors@[i] == crate::state::head_tensor(#[trigger] views[i]),
        decreases rest@.len(),
    {
        let ghost pre = rest@;
        proof {
            assert(views_of(pre) =~= views.skip(j as int));
            assert(views_of(pre)[0] == pre[0]@);
        }
        let o = rest.remove(0);
        proof {
            assert(o@ == views[j as int]);
            assert(rest@ =~= pre.skip(1));
            assert forall|k: int| 0 <= k < rest@.len() implies views_of(rest@)[k] == views.skip(
                j as int + 1,
            )[k] by {
                assert(views_of(rest@)[k] == rest@[k]@);
                assert(rest@[k] == pre[k + 1]);
                assert(views_of(pre)[k + 1] == pre[k + 1]@);
                assert(views_of(pre) == views.skip(j as int));
            }
            assert(views_of(rest@) =~= views.skip(j as int + 1));
        }
        match o {
            State::Struct(ss) => {
                let mut ts = ss.tensors;
                if ts.len() >= 1 {
                    let t = ts.remove(0);
                    tensors.push(t);
                } else {
                    proof {
                        assert(!crate::state::is_bundle(views[j as int]));
                    }
                    return Err(AutodiffError::StateMismatch);
                }
            },
            State::Null(_) => {
                proof {
                    assert(!crate::state::is_bundle(views[j as int]));
                }
                return Err(AutodiffError::StateMismatch);
            },
        }
        j = j + 1;
    }
    proof {
        assert(Seq::new(views.len(), |i: int| crate::state::head_tensor(views[i])) =~= tensors@);
    }
    Ok(State::Struct(StateStruct { tensors }))
}

/// A list of fetched parent outputs, prepended to the result of fetching
/// the remaining parents.
pub open spec fn prepend_outputs<V>(
    pre: Seq<StateView<V>>,
    step: (Result<Seq<StateView<V>>, AutodiffError>, Map<u64, StateView<V>>),
) -> (Result<Seq<StateView<V>>, AutodiffError>, Map<u64, StateView<V>>) {
    match step.0 {
        Ok(list) => (Ok(pre + list), step.1),
        Err(e) => (Err(e), step.1),
    }
}

/// A sub-map of a sub-map is a sub-map.
pub proof fn lemma_submap_trans<K, T>(a: Map<K, T>, b: Map<K, T>, c: Map<K, T>)
    requires
        a.submap_of(b),
        b.submap_of(c),
    ensures
        a.submap_of(c),
{
    assert forall|k: K| #[trigger] a.dom().contains(k) implies c.dom().contains(k) && a[k]
        == c[k] by {
        assert(b.dom().contains(k));
    }
}

/// Whatever `take_output` answers, the answer is the node's value under the
/// valuation, and the store it leaves behind is a consistent sub-store:
/// fetching never invents a value, whether it reads the stored copy or
/// recomputes.
pub proof fn lemma_take_output_sound<V, Op: Operation<V>>(
    states: Map<u64, StateView<V>>,
    ops: Map<u64, Op>,
    values: Map<u64, StateView<V>>,
    id: u64,
)
    requires
        consistent(states, ops, values),
    ensures
        ({
            let r = take_output(states, ops, id);
            &&& r.1.submap_of(states)
            &&& consistent(r.1, ops, values)
            &&& (r.0 matches Ok(v) ==> values.contains_key(id) && v == values[id])
        }),
    decreases id, 1int, 0int,
{
    if states.contains_key(id) {
    } else if ops.contains_key(id) {
        let node = ops[id].spec_node();
        assert(op_consistent(ops[id], id, values));
        lemma_take_parents_sound(states, ops, values, node.parents@, id);
        let fetched = take_parents(states, ops, node.parents@, id);
        match fetched.0 {
            Ok(list) => {
                assert(list =~= parent_views(values, node.parents@));
            },
            Err(_) => {},
        }
    } else {
    }
}

/// Soundness of fetching a parent list: every output handed back is the
/// parent's value under the valuation, in order, and the store shrinks to a
/// consistent sub-store.
pub proof fn lemma_take_parents_sound<V, Op: Operation<V>>(
    states: Map<u64, StateView<V>>,
    ops: Map<u64, Op>,
    values: Map<u64, StateView<V>>,
    parents: Seq<NodeID>,
    bound: u64,
)
    requires
        consistent(states, ops, values),
    ensures
        ({
            let r = take_parents(states, ops, parents, bound);
            &&& r.1.submap_of(states)
            &&& consistent(r.1, ops, values)
            &&& (r.0 matches Ok(list) ==> list.len() == parents.len() && forall|j: int|
                0 <= j < parents.len() ==> values.contains_key((#[trigger] parents[j]).value)
                    && list[j] == values[parents[j].value])
        }),
    decreases bound, 0int, parents.len(),
{
    if parents.len() == 0 {
    } else if parents[0].value < bound {
        lemma_take_output_sound(states, ops, values, parents[0].value);
        let first = take_output(states, ops, parents[0].value);
        match first.0 {
            Ok(v) => {
                lemma_take_parents_sound(first.1, ops, values, parents.drop_first(), bound);
                let rest = take_parents(first.1, ops, parents.drop_first(), bound);
                match rest.0 {
                    Ok(vs) => {
                        let list = seq![v] + vs;
                        assert forall|j: int| 0 <= j < parents.len() implies values.contains_key(
                            (#[trigger] parents[j]).value,
                        ) && list[j] == values[parents[j].value] by {
                            if j > 0 {
                                assert(parents.drop_first()[j - 1] == parents[j]);
                                assert(vs[j - 1] == values[parents[j].value]);
                            }
                        }
                        lemma_submap_trans(rest.1, first.1, states);
                    },
                    Err(_) => {
                        lemma_submap_trans(rest.1, first.1, states);
                    },
                }
            },
            Err(_) => {},
        }
    } else {
    }
}

/// Checkpoint-policy equivalence: two stores that share the operation
/// records and the valuation — but may disagree arbitrarily about which
/// nodes have their forward output stored and which are left to
/// recomputation — answer every successful fetch with the same value.
pub proof fn lemma_checkpoint_policy_equivalence<V, Op: Operation<V>>(
    stored_a: Map<u64, StateView<V>>,
    stored_b: Map<u64, StateView<V>>,
    ops: Map<u64, Op>,
    values: Map<u64, StateView<V>>,
    id: u64,
)
    requires
        consistent(stored_a, ops, values),
        consistent(stored_b, ops, values),
    ensures
        ({
            let ra = take_output(stored_a, ops, id);
            let rb = take_output(stored_b, ops, id);
            (ra.0 matches Ok(va) && rb.0 matches Ok(vb)) ==> ra.0 == rb.0
        }),
{
    lemma_take_output_sound(stored_a, ops, values, id);
    lemma_take_output_sound(stored_b, ops, values, id);
}

/// An operation record stays consistent when the valuation grows without
/// changing the keys it already had.
proof fn lemma_op_consistent_grow<V, Op: Operation<V>>(
    op: Op,
    id: u64,
    va: Map<u64, StateView<V>>,
    vu: Map<u64, StateView<V>>,
)
    requires
        op_consistent(op, id, va),
        va.submap_of(vu),
    ensures
        op_consistent(op, id, vu),
{
    let node = op.spec_node();
    assert forall|j: int| 0 <= j < node.parents@.len() implies parent_views(vu, node.parents@)[j]
        == parent_views(va, node.parents@)[j] by {
        let k = (#[trigger] node.parents@[j]).value;
        assert(va.contains_key(k));
        assert(va.dom().contains(k));
        assert(vu.dom().contains(k) && va[k] == vu[k]);
        assert(parent_views(va, node.parents@)[j] == va[k]);
        assert(parent_views(vu, node.parents@)[j] == vu[k]);
    }
    assert(parent_views(vu, node.parents@) =~= parent_views(va, node.parents@));
}

/// Extending a valuation with a fresh key preserves the consistency of all
/// present stored entries and operation records.
proof fn lemma_valuation_extend_consistent<V, Op: Operation<V>>(
    stored: Map<u64, StateView<V>>,
    ops: Map<u64, Op>,
    values: Map<u64, StateView<V>>,
    id: u64,
    v: StateView<V>,
)
    requires
        consistent(stored, ops, values),
        !values.contains_key(id),
    ensures
        consistent(stored, ops, values.insert(id, v)),
{
    let values2 = values.insert(id, v);
    assert forall|k: u64| #[trigger] ops.contains_key(k) implies op_consistent(
        ops[k],
        k,
        values2,
    ) by {
        let node = ops[k].spec_node();
        assert(op_consistent(ops[k], k, values));
        assert(parent_views(values2, node.parents@) =~= parent_views(values, node.parents@));
    }
}

} // verus!
