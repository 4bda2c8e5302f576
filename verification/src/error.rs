//! Failure modes of the backward machinery. Every one of them reports a
//! violated structural invariant of graph construction; none is recoverable.

use vstd::prelude::*;

use crate::node::NodeID;

verus! {

/// An invariant violation detected while fetching states or running steps.
#[derive(Debug, PartialEq, Eq)]
pub enum AutodiffError {
    /// A node had neither a stored forward value nor an operation record:
    /// the graph is corrupt.
    MissingRecord {
        /// The node whose value was demanded.
        id: NodeID,
    },
    /// A state did not have the shape the operation expected.
    StateMismatch,
    /// A broadcast-gradient reduction could not restore the operand shape;
    /// both shapes are reported.
    ShapeMismatch {
        /// The dimensions of the incoming gradient.
        grad_dims: Vec<usize>,
        /// The dimensions the operand actually has.
        expected_dims: Vec<usize>,
    },
    /// A backward step was invoked after it had already run.
    StepConsumed {
        /// The node the step is bound to.
        id: NodeID,
    },
}

impl AutodiffError {
    /// A short description of the failure class.
    pub fn describe(&self) -> (r: &'static str)
        ensures
            r@.len() > 0,
    {
        let s = match self {
            AutodiffError::MissingRecord { .. } => "missing operation record for node",
            AutodiffError::StateMismatch => "state variant mismatch",
            AutodiffError::ShapeMismatch { .. } => "invalid broadcast shapes",
            AutodiffError::StepConsumed { .. } => "backward step already consumed",
        };
        proof {
            reveal_strlit("missing operation record for node");
            reveal_strlit("state variant mismatch");
            reveal_strlit("invalid broadcast shapes");
            reveal_strlit("backward step already consumed");
        }
        s
    }
}

} // verus!
