//! The backward visitation order: every ancestor of the root that requires
//! a gradient, in strictly decreasing creation order, so that a node is
//! visited only after all of its children have contributed their gradient.

use vstd::prelude::*;

use crate::graph::Graph;
use crate::node::{Node, NodeID, Requirement};
use crate::ops::OpsSpec;

verus! {

/// `id` lies on an ancestor path from `root` through parent links (every
/// link descends to a strictly smaller id).
pub open spec fn is_ancestor(nodes: Map<u64, Node>, root: u64, id: u64) -> bool
    decreases root,
{
    id == root || (nodes.contains_key(root) && exists|j: int|
        0 <= j < nodes[root].parents@.len() && (#[trigger] nodes[root].parents@[j]).value < root
            && is_ancestor(nodes, nodes[root].parents@[j].value, id))
}

/// The arena is internally consistent: entries carry their own key, are
/// well formed, and parent links stay inside the arena.
pub open spec fn arena_wf(nodes: Map<u64, Node>) -> bool {
    forall|id: u64|
        #[trigger] nodes.contains_key(id) ==> {
            let n = nodes[id];
            &&& n.id.value == id
            &&& n.wf()
            &&& forall|j: int|
                0 <= j < n.parents@.len() ==> nodes.contains_key((#[trigger] n.parents@[j]).value)
        }
}

/// An ancestor's id never exceeds the root's.
pub proof fn lemma_ancestor_le(nodes: Map<u64, Node>, root: u64, id: u64)
    requires
        is_ancestor(nodes, root, id),
    ensures
        id <= root,
    decreases root,
{
    if id != root {
        let j = choose|j: int|
            0 <= j < nodes[root].parents@.len() && (#[trigger] nodes[root].parents@[j]).value
                < root && is_ancestor(nodes, nodes[root].parents@[j].value, id);
        lemma_ancestor_le(nodes, nodes[root].parents@[j].value, id);
    }
}

/// Every ancestor of a node in a closed arena is itself in the arena.
pub proof fn lemma_ancestor_in_arena(nodes: Map<u64, Node>, root: u64, id: u64)
    requires
        arena_wf(nodes),
        nodes.contains_key(root),
        is_ancestor(nodes, root, id),
    ensures
        nodes.contains_key(id),
    decreases root,
{
    if id != root {
        let j = choose|j: int|
            0 <= j < nodes[root].parents@.len() && (#[trigger] nodes[root].parents@[j]).value
                < root && is_ancestor(nodes, nodes[root].parents@[j].value, id);
        lemma_ancestor_in_arena(nodes, nodes[root].parents@[j].value, id);
    }
}

/// A parent of an ancestor is an ancestor.
pub proof fn lemma_ancestor_parent(nodes: Map<u64, Node>, root: u64, c: u64, j: int)
    requires
        is_ancestor(nodes, root, c),
        nodes.contains_key(c),
        0 <= j < nodes[c].parents@.len(),
        nodes[c].parents@[j].value < c,
    ensures
        is_ancestor(nodes, root, nodes[c].parents@[j].value),
    decreases root,
{
    let p = nodes[c].parents@[j].value;
    if c == root {
        assert(is_ancestor(nodes, p, p));
        assert(is_ancestor(nodes, root, p));
    } else {
        let k = choose|k: int|
            0 <= k < nodes[root].parents@.len() && (#[trigger] nodes[root].parents@[k]).value
                < root && is_ancestor(nodes, nodes[root].parents@[k].value, c);
        lemma_ancestor_parent(nodes, nodes[root].parents@[k].value, c, j);
        assert(is_ancestor(nodes, root, p));
    }
}

/// The ids below `i` that are gradient-requiring ancestors of `root`, in
/// strictly decreasing order.
pub open spec fn grad_ancestors_desc(nodes: Map<u64, Node>, root: u64, i: nat) -> Seq<NodeID>
    decreases i,
{
    if i == 0 {
        Seq::empty()
    } else {
        let id = (i - 1) as u64;
        let rest = grad_ancestors_desc(nodes, root, (i - 1) as nat);
        if is_ancestor(nodes, root, id) && nodes.contains_key(id) && nodes[id].requirement
            == Requirement::Grad {
            seq![NodeID { value: id }] + rest
        } else {
            rest
        }
    }
}

/// Each listed id is below the cutoff, a gradient-requiring ancestor, and
/// the listing strictly decreases.
pub proof fn lemma_grad_ancestors_sound(nodes: Map<u64, Node>, root: u64, i: nat)
    requires
        i <= u64::MAX + 1,
    ensures
        ({
            let s = grad_ancestors_desc(nodes, root, i);
            &&& forall|p: int|
                0 <= p < s.len() ==> (#[trigger] s[p]).value < i && is_ancestor(
                    nodes,
                    root,
                    s[p].value,
                ) && nodes.contains_key(s[p].value) && nodes[s[p].value].requirement
                    == Requirement::Grad
            &&& forall|p: int, q: int|
                0 <= p < q < s.len() ==> (#[trigger] s[p]).value > (#[trigger] s[q]).value
        }),
    decreases i,
{
    if i > 0 {
        lemma_grad_ancestors_sound(nodes, root, (i - 1) as nat);
    }
}

/// Every gradient-requiring ancestor below the cutoff is listed.
pub proof fn lemma_grad_ancestors_complete(nodes: Map<u64, Node>, root: u64, i: nat, id: u64)
    requires
        i <= u64::MAX + 1,
        id < i,
        is_ancestor(nodes, root, id),
        nodes.contains_key(id),
        nodes[id].requirement == Requirement::Grad,
    ensures
        grad_ancestors_desc(nodes, root, i).contains(NodeID { value: id }),
    decreases i,
{
    let s = grad_ancestors_desc(nodes, root, i);
    if id + 1 == i {
        assert(s[0] == NodeID { value: id });
    } else {
        lemma_grad_ancestors_complete(nodes, root, (i - 1) as nat, id);
        let rest = grad_ancestors_desc(nodes, root, (i - 1) as nat);
        let p = choose|p: int| 0 <= p < rest.len() && rest[p] == (NodeID { value: id });
        if s.len() == rest.len() + 1 {
            assert(s[p + 1] == NodeID { value: id });
        } else {
            assert(s[p] == NodeID { value: id });
        }
    }
}

/// The backward visitation order for `root`: every ancestor that requires
/// a gradient, each exactly once, in strictly decreasing creation order.
#[verifier::loop_isolation(false)]
pub fn backward_order<V, OS: OpsSpec<V>>(graph: &Graph<V, OS>, root: NodeID) -> (r: Vec<NodeID>)
    requires
        graph.wf(),
        graph.nodes@.contains_key(root.value),
        root.value < (usize::MAX as u64),
    ensures
        r@ == grad_ancestors_desc(graph.nodes@, root.value, root.value as nat + 1),
{
    let ghost nm = graph.nodes@;
    let rootv = root.value;
    let n = rootv as usize;
    let mut reach: Vec<bool> = vec![false; n + 1];
    reach[n] = true;
    proof {
        assert(is_ancestor(nm, rootv, rootv));
    }
    let mut out: Vec<NodeID> = Vec::new();
    let mut i: usize = n + 1;
    while i > 0
        invariant
            i <= n + 1,
            reach@.len() == n + 1,
            forall|jj: int| 0 <= jj <= n && #[trigger] reach@[jj] ==> is_ancestor(
                nm,
                rootv,
                jj as u64,
            ),
            forall|jj: int|
                #![trigger is_ancestor(nm, rootv, jj as u64)]
                0 <= jj < i && is_ancestor(nm, rootv, jj as u64) ==> exists|k: int|
                    jj <= k < i && #[trigger] reach@[k] && is_ancestor(nm, k as u64, jj as u64),
            forall|jj: int|
                i <= jj <= n ==> (#[trigger] reach@[jj] <==> is_ancestor(nm, rootv, jj as u64)),
            grad_ancestors_desc(nm, rootv, (n + 1) as nat) == out@ + grad_ancestors_desc(
                nm,
                rootv,
                i as nat,
            ),
        decreases i,
    {
        i = i - 1;
        let ghost old_reach = reach@;
        let ghost old_out = out@;
        let marked = reach[i];
        if marked {
            proof {
                lemma_ancestor_in_arena(nm, rootv, i as u64);
            }
            let node = graph.nodes.get(i as u64).unwrap();
            let np = node.parents.len();
            let mut t: usize = 0;
            while t < np
                invariant
                    t <= np,
                    np == node.parents@.len(),
                    reach@.len() == n + 1,
                    forall|kk: int| 0 <= kk <= n && old_reach[kk] ==> reach@[kk],
                    forall|kk: int|
                        0 <= kk <= n && #[trigger] reach@[kk] && !old_reach[kk] ==> exists|tt: int|
                            0 <= tt < t && (#[trigger] node.parents@[tt]).value == kk,
                    forall|tt: int|
                        0 <= tt < t ==> reach@[(#[trigger] node.parents@[tt]).value as int],
                decreases np - t,
            {
                let p = node.parents[t];
                proof {
                    assert(p.value < i as u64);
                }
                reach[p.value as usize] = true;
                t = t + 1;
            }
            let push = node.requires_grad();
            if push {
                out.push(NodeID { value: i as u64 });
            }
            proof {
                let iv = i as u64;
                // soundness of the new marks
                assert forall|jj: int| 0 <= jj <= n && #[trigger] reach@[jj] implies is_ancestor(
                    nm,
                    rootv,
                    jj as u64,
                ) by {
                    if !old_reach[jj] {
                        let tt = choose|tt: int|
                            0 <= tt < np && (#[trigger] node.parents@[tt]).value == jj;
                        lemma_ancestor_parent(nm, rootv, iv, tt);
                    }
                }
                // the frontier keeps covering every remaining ancestor
                assert forall|jj: int|
                    #![trigger is_ancestor(nm, rootv, jj as u64)]
                    0 <= jj < i && is_ancestor(nm, rootv, jj as u64) implies exists|k: int|
                    jj <= k < i && #[trigger] reach@[k] && is_ancestor(nm, k as u64, jj as u64) by {
                    let k0 = choose|k: int|
                        jj <= k < i + 1 && #[trigger] old_reach[k] && is_ancestor(
                            nm,
                            k as u64,
                            jj as u64,
                        );
                    if k0 < i {
                        assert(reach@[k0]);
                    } else {
                        // the covering node is the one just processed: step
                        // down through one of its parents
                        assert(is_ancestor(nm, iv, jj as u64));
                        assert(jj < k0);
                        let j = choose|j: int|
                            0 <= j < nm[iv].parents@.len() && (#[trigger] nm[iv].parents@[j]).value
                                < iv && is_ancestor(nm, nm[iv].parents@[j].value, jj as u64);
                        let pv = nm[iv].parents@[j].value;
                        assert(node.parents@[j].value == pv);
                        assert(reach@[pv as int]);
                        lemma_ancestor_le(nm, pv, jj as u64);
                        assert(jj <= pv < i && reach@[pv as int] && is_ancestor(
                            nm,
                            pv,
                            jj as u64,
                        ));
                    }
                }
                // marked processed ids are exactly the ancestors
                assert forall|jj: int| i <= jj <= n implies (#[trigger] reach@[jj]
                    <==> is_ancestor(nm, rootv, jj as u64)) by {
                    if jj > i {
                        assert(old_reach[jj] <==> is_ancestor(nm, rootv, jj as u64));
                        if reach@[jj] && !old_reach[jj] {
                            let tt = choose|tt: int|
                                0 <= tt < np && (#[trigger] node.parents@[tt]).value == jj;
                            assert(node.parents@[tt].value < iv);
                        }
                    }
                }
                // the output stays the processed prefix of the listing
                let full = grad_ancestors_desc(nm, rootv, (n + 1) as nat);
                let gi = grad_ancestors_desc(nm, rootv, i as nat);
                if push {
                    assert(grad_ancestors_desc(nm, rootv, (i + 1) as nat) == seq![
                        NodeID { value: iv },
                    ] + gi);
                    assert(old_out + (seq![NodeID { value: iv }] + gi) =~= out@ + gi);
                } else {
                    assert(nm[iv].requirement != Requirement::Grad);
                    assert(grad_ancestors_desc(nm, rootv, (i + 1) as nat) == gi);
                }
            }
        } else {
            proof {
                let iv = i as u64;
                assert forall|jj: int|
                    #![trigger is_ancestor(nm, rootv, jj as u64)]
                    0 <= jj < i && is_ancestor(nm, rootv, jj as u64) implies exists|k: int|
                    jj <= k < i && #[trigger] reach@[k] && is_ancestor(nm, k as u64, jj as u64) by {
                    let k0 = choose|k: int|
                        jj <= k < i + 1 && #[trigger] reach@[k] && is_ancestor(
                            nm,
                            k as u64,
                            jj as u64,
                        );
                    assert(k0 != i);
                }
                assert(!is_ancestor(nm, rootv, iv));
                assert(grad_ancestors_desc(nm, rootv, (i + 1) as nat) == grad_ancestors_desc(
                    nm,
                    rootv,
                    i as nat,
                ));
            }
        }
    }
    proof {
        assert(grad_ancestors_desc(nm, rootv, 0) =~= Seq::<NodeID>::empty());
        assert(out@ + Seq::<NodeID>::empty() =~= out@);
    }
    out
}

} // verus!
