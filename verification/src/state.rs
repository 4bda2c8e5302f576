//! The carrier for one node's forward value or input bundle. The original
//! design erased these behind a boxed trait object recovered by runtime
//! downcast; here the finite set of shapes is a closed tagged type, so no
//! type-identity check can fail.

use vstd::prelude::*;

verus! {

/// The payload-free state shape.
#[derive(Clone, Copy, Debug)]
pub struct StateNull {}

/// An ordered sequence of tensor-primitive values.
#[derive(Debug)]
pub struct StateStruct<V> {
    /// The tensors, in the order the operation declared them.
    pub tensors: Vec<V>,
}

/// A node's forward value or input bundle: either no payload, or an ordered
/// sequence of tensor primitives.
#[derive(Debug)]
pub enum State<V> {
    /// No payload.
    Null(StateNull),
    /// A bundle of tensor-primitive values.
    Struct(StateStruct<V>),
}

/// The mathematical content of a `State`.
pub enum StateView<V> {
    /// No payload.
    Null,
    /// A bundle of tensor-primitive values.
    Tensors(Seq<V>),
}

impl<V> View for State<V> {
    type V = StateView<V>;

    open spec fn view(&self) -> StateView<V> {
        match self {
            State::Null(_) => StateView::Null,
            State::Struct(s) => StateView::Tensors(s.tensors@),
        }
    }
}

/// A state that can serve as one operand of an input bundle: a tensor bundle
/// with at least its leading tensor.
pub open spec fn is_bundle<V>(s: StateView<V>) -> bool {
    match s {
        StateView::Tensors(ts) => ts.len() >= 1,
        StateView::Null => false,
    }
}

/// The leading tensor of a bundle.
pub open spec fn head_tensor<V>(s: StateView<V>) -> V {
    match s {
        StateView::Tensors(ts) => ts[0],
        StateView::Null => arbitrary(),
    }
}

/// The views of a list of states, in order.
pub open spec fn views_of<V>(outs: Seq<State<V>>) -> Seq<StateView<V>> {
    outs.map_values(|o: State<V>| o@)
}

/// The input bundle assembled from a list of parent outputs: the leading
/// tensor of each, in parent order. `None` when some output is not a usable
/// bundle.
pub open spec fn assemble_input<V>(outs: Seq<StateView<V>>) -> Option<StateView<V>> {
    if forall|i: int| 0 <= i < outs.len() ==> is_bundle(#[trigger] outs[i]) {
        Some(StateView::Tensors(Seq::new(outs.len(), |i: int| head_tensor(outs[i]))))
    } else {
        None
    }
}

} // verus!
