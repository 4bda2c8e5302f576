//! Identity and linkage of one value produced during a computation: a node
//! has a process-unique id, ordered back-references to its parents, and a tag
//! saying whether it takes part in gradient propagation.

use vstd::prelude::*;

verus! {

/// Whether a node participates in gradient propagation.
#[derive(Clone, Copy, Debug, PartialEq, Eq, Structural)]
pub enum Requirement {
    /// The node requires a gradient; the backward pass visits it.
    Grad,
    /// The node does not require a gradient.
    NoGrad,
}

impl Requirement {
    /// True when no gradient is required.
    pub fn is_no_grad(&self) -> (r: bool)
        ensures
            r == (*self == Requirement::NoGrad),
    {
        match self {
            Requirement::Grad => false,
            Requirement::NoGrad => true,
        }
    }

    /// Combined requirement of a set of operands: any operand requiring a
    /// gradient makes the result require one.
    pub fn or(self, other: Requirement) -> (r: Requirement)
        ensures
            r == spec_or(self, other),
    {
        match self {
            Requirement::Grad => Requirement::Grad,
            Requirement::NoGrad => other,
        }
    }

    /// The combined requirement of a list of operand nodes: the result
    /// requires a gradient exactly when some operand does.
    pub fn from_nodes(nodes: &Vec<Node>) -> (r: Requirement)
        ensures
            r == Requirement::Grad <==> exists|j: int|
                0 <= j < nodes@.len() && (#[trigger] nodes@[j]).requirement == Requirement::Grad,
    {
        let n = nodes.len();
        let mut i: usize = 0;
        while i < n
            invariant
                i <= n,
                n == nodes@.len(),
                forall|j: int| 0 <= j < i ==> (#[trigger] nodes@[j]).requirement != Requirement::Grad,
            decreases n - i,
        {
            if nodes[i].requires_grad() {
                return Requirement::Grad;
            }
            i = i + 1;
        }
        Requirement::NoGrad
    }
}

/// Requirement of a value derived from two operands.
pub open spec fn spec_or(a: Requirement, b: Requirement) -> Requirement {
    if a == Requirement::Grad || b == Requirement::Grad {
        Requirement::Grad
    } else {
        Requirement::NoGrad
    }
}

/// Process-unique identifier of a node; carries no meaning beyond identity
/// and creation order.
#[derive(Clone, Copy, Debug, PartialEq, Eq, Structural)]
pub struct NodeID {
    /// The underlying counter value; later nodes have larger values.
    pub value: u64,
}

/// One node of the computation graph: identity, ordered parent
/// back-references, and the gradient requirement. Immutable after creation.
#[derive(Clone, Debug)]
pub struct Node {
    /// Identity of this node.
    pub id: NodeID,
    /// Ids of the parent nodes, in the order the operation declared them.
    pub parents: Vec<NodeID>,
    /// Whether this node requires gradient propagation.
    pub requirement: Requirement,
}

impl Node {
    /// A node is well formed when every parent was created strictly before
    /// it, which keeps the graph acyclic.
    pub open spec fn wf(self) -> bool {
        forall|i: int|
            0 <= i < self.parents@.len() ==> (#[trigger] self.parents@[i]).value < self.id.value
    }

    /// A field-for-field copy of this node.
    pub fn duplicate(&self) -> (r: Node)
        ensures
            r.id == self.id,
            r.parents@ == self.parents@,
            r.requirement == self.requirement,
    {
        let mut parents: Vec<NodeID> = Vec::new();
        let n = self.parents.len();
        let mut i: usize = 0;
        while i < n
            invariant
                i <= n,
                n == self.parents@.len(),
                parents@.len() == i,
                forall|k: int| 0 <= k < i ==> parents@[k] == self.parents@[k],
            decreases n - i,
        {
            parents.push(self.parents[i]);
            i = i + 1;
        }
        proof {
            assert(parents@ =~= self.parents@);
        }
        Node { id: self.id, parents, requirement: self.requirement }
    }

    /// True when this node requires gradient propagation.
    pub fn requires_grad(&self) -> (r: bool)
        ensures
            r == (self.requirement == Requirement::Grad),
    {
        match self.requirement {
            Requirement::Grad => true,
            Requirement::NoGrad => false,
        }
    }
}

} // verus!
