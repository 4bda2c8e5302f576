//! The operation contract: a differentiable operation exposes a forward
//! function over state bundles, a backward step that merges parent
//! gradients, and a bottleneck classification driving the store-versus-
//! recompute decision. An operation record binds a specification to its
//! node and parents; a step wraps a record for single-use backward
//! execution.

use core::marker::PhantomData;
use vstd::prelude::*;

use crate::checkpoint::NodeStates;
use crate::error::AutodiffError;
use crate::grads::Gradients;
use crate::node::{Node, NodeID};
use crate::state::{State, StateView};

verus! {

/// Whether recomputing an operation's output is expensive (prefer storing
/// it) or cheap (prefer discarding and recomputing on demand).
#[derive(Clone, Copy, Debug, PartialEq, Eq, Structural)]
pub enum Bottleneck {
    /// Recomputation is expensive: store the forward output eagerly.
    ComputeBound,
    /// Recomputation is cheap: regenerate the output during backward.
    MemoryBound,
}

/// The forward/backward/bottleneck contract each differentiable operation
/// kind implements. Implementations must make `forward` agree with
/// `spec_forward` on every input — recomputation replays `forward` and
/// relies on it being deterministic — and make `backward` merge exactly the
/// contributions `spec_backward` describes.
pub trait OpsSpec<V>: Sized {
    /// Mathematical forward function over state bundles.
    closed spec fn spec_forward(&self, input: StateView<V>) -> StateView<V> {
        arbitrary()
    }

    /// Mathematical gradient update of one backward step, as a function of
    /// the operation's node, its grad-requiring parents, the gradients so
    /// far, and the forward values of all nodes.
    closed spec fn spec_backward(
        &self,
        node: Node,
        parents: Seq<Option<NodeID>>,
        grads: Map<u64, V>,
        values: Map<u64, StateView<V>>,
    ) -> Map<u64, V> {
        arbitrary()
    }

    /// Mathematical bottleneck classification.
    closed spec fn spec_bottleneck(&self) -> Bottleneck {
        arbitrary()
    }

    /// Compute the forward output for an input bundle.
    fn forward(&self, input: State<V>) -> (r: State<V>)
        ensures
            r@ == self.spec_forward(input@),
    ;

    /// Classify whether this operation's output is worth storing.
    fn bottleneck(&self) -> (r: Bottleneck)
        ensures
            r == self.spec_bottleneck(),
    ;

    /// A copy of this specification, equal to the original: the operation
    /// record and the backward step each hold one.
    fn duplicate(&self) -> (r: Self)
        ensures
            r == *self,
    ;

    /// Compute local derivatives and merge each parent's contribution into
    /// `grads`, fetching whatever forward values are needed from `states`.
    fn backward<Op: Operation<V>>(
        &self,
        ops: &Ops<V, Self>,
        grads: &mut Gradients<V>,
        states: &mut NodeStates<V, Op>,
    )
        requires
            old(states).wf(),
        ensures
            final(states).wf(),
            final(states).value_map() == old(states).value_map(),
            final(states).ops_map() == old(states).ops_map(),
            final(states).stored_map().submap_of(old(states).stored_map()),
            final(grads)@ == self.spec_backward(
                ops.node,
                ops.parents@,
                old(grads)@,
                old(states).value_map(),
            ),
    ;
}

/// An operation record: the operation specification bound to its owning
/// node and to its parents (a parent is `None` when it does not require a
/// gradient).
#[derive(Debug)]
pub struct Ops<V, OS> {
    /// Parent references, in declaration order; `None` for a parent that
    /// does not require a gradient.
    pub parents: Vec<Option<NodeID>>,
    /// The node this record belongs to.
    pub node: Node,
    /// The operation specification.
    pub ops_spec: OS,
    /// Carrier for the tensor-primitive type.
    pub value_marker: PhantomData<V>,
}

impl<V, OS: OpsSpec<V>> Ops<V, OS> {
    /// Bind an operation specification to its node and parents.
    pub fn new(parents: Vec<Option<NodeID>>, node: Node, ops_spec: OS) -> (r: Self)
        ensures
            r.parents == parents,
            r.node == node,
            r.ops_spec == ops_spec,
    {
        Ops { parents, node, ops_spec, value_marker: PhantomData }
    }

    /// Fetch the input bundle of this record's node from the checkpoint
    /// store: the parents' outputs in declaration order, consuming stored
    /// entries exactly as `take_parents` describes.
    pub fn fetch_inputs<Op: Operation<V>>(&self, states: &mut NodeStates<V, Op>) -> (r: Result<
        State<V>,
        AutodiffError,
    >)
        requires
            old(states).wf(),
            self.node.wf(),
        ensures
            final(states).wf(),
            final(states).value_map() == old(states).value_map(),
            final(states).ops_map() == old(states).ops_map(),
            final(states).stored_map().submap_of(old(states).stored_map()),
            ({
                let fetched = crate::checkpoint::take_parents(
                    old(states).stored_map(),
                    old(states).ops_map(),
                    self.node.parents@,
                    self.node.id.value,
                );
                &&& final(states).stored_map() == fetched.1
                &&& match fetched.0 {
                    Ok(list) => match crate::state::assemble_input(list) {
                        Some(inp) => r matches Ok(s) && s@ == inp,
                        None => r matches Err(e) && e == AutodiffError::StateMismatch,
                    },
                    Err(e) => r matches Err(e2) && e2 == e,
                }
            }),
    {
        states.get_input(&self.node)
    }
}

/// The type-erasure facade over operation records: what the checkpoint
/// store needs from a registered operation — its node and a replayable
/// forward function.
pub trait Operation<V>: Sized {
    /// The node this operation belongs to.
    closed spec fn spec_node(&self) -> Node {
        arbitrary()
    }

    /// Mathematical forward function.
    closed spec fn spec_forward(&self, input: StateView<V>) -> StateView<V> {
        arbitrary()
    }

    /// The node this operation belongs to.
    fn node(&self) -> (r: &Node)
        ensures
            *r == self.spec_node(),
    ;

    /// Replay the forward computation on an input bundle.
    fn forward(&self, input: State<V>) -> (r: State<V>)
        ensures
            r@ == self.spec_forward(input@),
    ;
}

impl<V, OS: OpsSpec<V>> Operation<V> for Ops<V, OS> {
    open spec fn spec_node(&self) -> Node {
        self.node
    }

    open spec fn spec_forward(&self, input: StateView<V>) -> StateView<V> {
        self.ops_spec.spec_forward(input)
    }

    fn node(&self) -> (r: &Node) {
        &self.node
    }

    fn forward(&self, input: State<V>) -> (r: State<V>) {
        self.ops_spec.forward(input)
    }
}

/// The single-use backward executor bound to one node: holds the operation
/// record and specification, runs at most once, and fails deterministically
/// on any later invocation.
#[derive(Debug)]
pub struct OpsStep<V, OS> {
    ops: Ops<V, OS>,
    backward: OS,
    consumed: bool,
}

impl<V, OS: OpsSpec<V>> OpsStep<V, OS> {
    /// The operation record the step wraps.
    pub closed spec fn ops_view(self) -> Ops<V, OS> {
        self.ops
    }

    /// The operation specification that runs the backward computation.
    pub closed spec fn spec_view(self) -> OS {
        self.backward
    }

    /// Whether the step has already run.
    pub closed spec fn is_consumed(self) -> bool {
        self.consumed
    }

    /// Wrap an operation record for later backward execution.
    pub fn new(ops: Ops<V, OS>, backward: OS) -> (r: Self)
        ensures
            r.ops_view() == ops,
            r.spec_view() == backward,
            !r.is_consumed(),
    {
        OpsStep { ops, backward, consumed: false }
    }

    /// The node this step is bound to.
    pub fn node(&self) -> (r: &Node)
        ensures
            *r == self.ops_view().node,
    {
        &self.ops.node
    }

    /// Execute the backward step once. The first invocation merges exactly
    /// the contributions of `spec_backward` into `grads` and consumes the
    /// step; every later invocation fails deterministically and changes
    /// nothing.
    pub fn step(
        &mut self,
        grads: &mut Gradients<V>,
        states: &mut NodeStates<V, Ops<V, OS>>,
    ) -> (r: Result<(), AutodiffError>)
        requires
            old(states).wf(),
        ensures
            final(states).wf(),
            final(states).value_map() == old(states).value_map(),
            final(states).ops_map() == old(states).ops_map(),
            final(states).stored_map().submap_of(old(states).stored_map()),
            final(self).ops_view() == old(self).ops_view(),
            final(self).spec_view() == old(self).spec_view(),
            final(self).is_consumed(),
            match r {
                Ok(()) => !old(self).is_consumed() && final(grads)@ == old(
                    self,
                ).spec_view().spec_backward(
                    old(self).ops_view().node,
                    old(self).ops_view().parents@,
                    old(grads)@,
                    old(states).value_map(),
                ),
                Err(e) => old(self).is_consumed() && e == (AutodiffError::StepConsumed {
                    id: old(self).ops_view().node.id,
                }) && final(grads)@ == old(grads)@ && *final(states) == *old(states),
            },
    {
        if self.consumed {
            return Err(AutodiffError::StepConsumed { id: self.ops.node.id });
        }
        self.consumed = true;
        self.backward.backward(&self.ops, grads, states);
        Ok(())
    }
}

} // verus!
