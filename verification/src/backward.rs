//! The backward pass: seed the root's gradient with a ones tensor, walk the
//! traversal order, and let each node's single-use step merge its parents'
//! contributions. The resulting gradient map is a pure function of the step
//! registry, the visitation order, the seed, and the valuation of forward
//! values — not of which of those values happened to be stored, which is
//! the checkpoint-policy equivalence this module closes.

use vstd::prelude::*;

use crate::backend::Backend;
use crate::grads::{spec_accumulate, Gradients};
use crate::node::NodeID;
use crate::ops::{OpsSpec, OpsStep};
use crate::state::StateView;
use crate::tensor::AutodiffTensor;
use crate::traversal::{backward_order, grad_ancestors_desc};

verus! {

/// What walking `order` over the step registry does to a gradient map:
/// each listed node with a registered step applies its backward function,
/// every other listed node is skipped. The valuation is the only forward
/// information consulted.
pub open spec fn run_steps<V, OS: OpsSpec<V>>(
    steps: Map<u64, OpsStep<V, OS>>,
    order: Seq<NodeID>,
    grads: Map<u64, V>,
    values: Map<u64, StateView<V>>,
) -> Map<u64, V>
    decreases order.len(),
{
    if order.len() == 0 {
        grads
    } else {
        let id = order[0].value;
        let g1 = if steps.contains_key(id) {
            steps[id].spec_view().spec_backward(
                steps[id].ops_view().node,
                steps[id].ops_view().parents@,
                grads,
                values,
            )
        } else {
            grads
        };
        run_steps(steps, order.drop_first(), g1, values)
    }
}

/// Two step registries that agree on every listed node drive the walk to
/// the same gradients.
pub proof fn lemma_run_steps_agree<V, OS: OpsSpec<V>>(
    s1: Map<u64, OpsStep<V, OS>>,
    s2: Map<u64, OpsStep<V, OS>>,
    order: Seq<NodeID>,
    grads: Map<u64, V>,
    values: Map<u64, StateView<V>>,
)
    requires
        forall|p: int|
            0 <= p < order.len() ==> {
                let id = (#[trigger] order[p]).value;
                &&& s1.contains_key(id) == s2.contains_key(id)
                &&& s1.contains_key(id) ==> s1[id] == s2[id]
            },
    ensures
        run_steps(s1, order, grads, values) == run_steps(s2, order, grads, values),
    decreases order.len(),
{
    if order.len() > 0 {
        let id = order[0].value;
        let g1 = if s1.contains_key(id) {
            s1[id].spec_view().spec_backward(
                s1[id].ops_view().node,
                s1[id].ops_view().parents@,
                grads,
                values,
            )
        } else {
            grads
        };
        assert forall|p: int| 0 <= p < order.drop_first().len() implies {
            let id2 = (#[trigger] order.drop_first()[p]).value;
            &&& s1.contains_key(id2) == s2.contains_key(id2)
            &&& s1.contains_key(id2) ==> s1[id2] == s2[id2]
        } by {
            assert(order.drop_first()[p] == order[p + 1]);
        }
        lemma_run_steps_agree(s1, s2, order.drop_first(), g1, values);
    }
}

/// Run the full backward pass from a tensor: compute the visitation order,
/// seed the root gradient with a ones tensor of the root's shape, and
/// execute every recorded step in order. The returned gradients are
/// exactly the walk of `run_steps` over the order, seeded at the root —
/// a function of the valuation alone, never of the storage policy.
#[verifier::loop_isolation(false)]
pub fn backward<V, B: Backend<V>, OS: OpsSpec<V>>(tensor: AutodiffTensor<V, OS>) -> (g: Gradients<
    V,
>)
    requires
        tensor.wf(),
        tensor.node.id.value < (usize::MAX as u64),
    ensures
        g@ == run_steps(
            tensor.graph.steps@,
            grad_ancestors_desc(
                tensor.graph.nodes@,
                tensor.node.id.value,
                tensor.node.id.value as nat + 1,
            ),
            spec_accumulate::<V, B>(
                Map::empty(),
                tensor.node.id.value,
                B::spec_ones(B::spec_shape(tensor.primitive)),
            ),
            tensor.graph.states.value_map(),
        ),
{
    let AutodiffTensor { primitive, node, mut graph } = tensor;
    let ghost steps0 = graph.steps@;
    let ghost values0 = graph.states.value_map();
    let order = backward_order(&graph, node.id);
    proof {
        crate::traversal::lemma_grad_ancestors_sound(
            graph.nodes@,
            node.id.value,
            node.id.value as nat + 1,
        );
    }
    let mut grads = Gradients::new();
    let shape = B::shape(&primitive);
    grads.register::<B>(node.id, B::ones(&shape));
    let ghost seed = grads@;
    let ghost goal = run_steps(steps0, order@, seed, values0);
    proof {
        assert(order@.skip(0) =~= order@);
    }
    let n = order.len();
    let mut idx: usize = 0;
    while idx < n
        invariant
            idx <= n,
            n == order@.len(),
            graph.states.wf(),
            graph.states.value_map() == values0,
            forall|k: u64|
                #[trigger] graph.steps@.contains_key(k) ==> steps0.contains_key(k) && graph.steps@[k]
                    == steps0[k] && !graph.steps@[k].is_consumed(),
            forall|p: int|
                idx <= p < n ==> graph.steps@.contains_key((#[trigger] order@[p]).value)
                    == steps0.contains_key(order@[p].value),
            goal == run_steps(graph.steps@, order@.skip(idx as int), grads@, values0),
        decreases n - idx,
    {
        let ghost pre_steps = graph.steps@;
        let ghost pre_grads = grads@;
        let ghost tail = order@.skip(idx as int);
        proof {
            assert(tail[0] == order@[idx as int]);
            assert(tail.drop_first() =~= order@.skip(idx as int + 1));
        }
        let id = order[idx];
        match graph.steps.take(id.value) {
            None => {
                proof {
                    assert(!pre_steps.contains_key(id.value));
                    assert(graph.steps@ =~= pre_steps);
                }
            },
            Some(mut st) => {
                let res = st.step(&mut grads, &mut graph.states);
                match res {
                    Ok(()) => {},
                    Err(_) => {
                        proof {
                            assert(false);
                        }
                    },
                }
                proof {
                    // removing the consumed entry cannot affect the rest of
                    // the walk: later listed ids are strictly smaller
                    assert forall|p: int| 0 <= p < tail.drop_first().len() implies {
                        let id2 = (#[trigger] tail.drop_first()[p]).value;
                        &&& pre_steps.contains_key(id2) == graph.steps@.contains_key(id2)
                        &&& pre_steps.contains_key(id2) ==> pre_steps[id2] == graph.steps@[id2]
                    } by {
                        let p_full = idx as int + 1 + p;
                        assert(tail.drop_first()[p] == order@[p_full]);
                        assert(order@[p_full].value < order@[idx as int].value);
                    }
                    lemma_run_steps_agree(
                        pre_steps,
                        graph.steps@,
                        tail.drop_first(),
                        grads@,
                        values0,
                    );
                }
            },
        }
        idx = idx + 1;
    }
    proof {
        assert(order@.skip(n as int) =~= Seq::<NodeID>::empty());
    }
    grads
}

/// Look up the accumulated gradient of a tensor by node identity: present
/// exactly when the backward pass contributed to that node.
pub fn grad<'a, V, OS: OpsSpec<V>>(grads: &'a Gradients<V>, tensor: &AutodiffTensor<V, OS>) -> (r:
    Option<&'a V>)
    ensures
        match r {
            Some(v) => grads@.contains_key(tensor.node.id.value) && *v
                == grads@[tensor.node.id.value],
            None => !grads@.contains_key(tensor.node.id.value),
        },
{
    grads.get(&tensor.node.id)
}

} // verus!
