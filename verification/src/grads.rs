//! The gradient accumulator: a mapping from node identity to the summed
//! gradient contributions of all children visited so far. An entry is
//! created lazily on the first contribution and merged additively with each
//! later one.

use vstd::prelude::*;

use crate::backend::Backend;
use crate::idmap::IdMap;
use crate::node::NodeID;

verus! {

/// One contribution merged into a gradient map: the first contribution for
/// a node creates its entry, later ones are added elementwise.
pub open spec fn spec_accumulate<V, B: Backend<V>>(g: Map<u64, V>, id: u64, v: V) -> Map<u64, V> {
    if g.contains_key(id) {
        g.insert(id, B::spec_add(g[id], v))
    } else {
        g.insert(id, v)
    }
}

/// Accumulated gradients of one backward pass, keyed by node identity.
#[derive(Debug)]
pub struct Gradients<V> {
    map: IdMap<V>,
}

impl<V> Gradients<V> {
    /// The accumulator as a mathematical map.
    pub closed spec fn view(self) -> Map<u64, V> {
        self.map@
    }

    /// An empty accumulator.
    pub fn new() -> (r: Self)
        ensures
            r@ == Map::<u64, V>::empty(),
    {
        Gradients { map: IdMap::new() }
    }

    /// Merge one contribution for `node_id`: stored as is on first contact,
    /// added to the present entry otherwise.
    pub fn register<B: Backend<V>>(&mut self, node_id: NodeID, value: V)
        ensures
            final(self)@ == spec_accumulate::<V, B>(old(self)@, node_id.value, value),
    {
        match self.map.take(node_id.value) {
            Some(prev) => {
                let sum = B::add(&prev, &value);
                self.map.insert(node_id.value, sum);
                proof {
                    assert(old(self)@.remove(node_id.value).insert(node_id.value, sum)
                        =~= old(self)@.insert(node_id.value, sum));
                }
            },
            None => {
                self.map.insert(node_id.value, value);
            },
        }
    }

    /// Read access to the accumulated gradient of a node.
    pub fn get(&self, node_id: &NodeID) -> (r: Option<&V>)
        ensures
            match r {
                Some(v) => self@.contains_key(node_id.value) && *v == self@[node_id.value],
                None => !self@.contains_key(node_id.value),
            },
    {
        self.map.get(node_id.value)
    }

    /// Remove and return the accumulated gradient of a node.
    pub fn remove(&mut self, node_id: &NodeID) -> (r: Option<V>)
        ensures
            final(self)@ == old(self)@.remove(node_id.value),
            match r {
                Some(v) => old(self)@.contains_key(node_id.value) && v == old(
                    self,
                )@[node_id.value],
                None => !old(self)@.contains_key(node_id.value),
            },
    {
        self.map.take(node_id.value)
    }
}

/// A node with two children in the traversal accumulates the sum of both
/// contributions: registering `c1` and then `c2` on a fresh entry leaves
/// exactly their elementwise sum.
pub proof fn lemma_fan_in_accumulation<V, B: Backend<V>>(g: Map<u64, V>, id: u64, c1: V, c2: V)
    requires
        !g.contains_key(id),
    ensures
        spec_accumulate::<V, B>(spec_accumulate::<V, B>(g, id, c1), id, c2).contains_key(id),
        spec_accumulate::<V, B>(spec_accumulate::<V, B>(g, id, c1), id, c2)[id] == B::spec_add(
            c1,
            c2,
        ),
{
}

} // verus!
