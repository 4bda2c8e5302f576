//! Reverse-mode automatic differentiation core: a dynamically built graph of
//! numeric operations, a checkpointing store that either keeps or recomputes
//! forward values on demand, and a backward pass that accumulates gradients
//! per node in reverse creation order.
//!
//! The numeric kernels themselves (matrix products, elementwise maps) are
//! external collaborators: the core is generic over a tensor primitive type,
//! over the kernel contract of a backend, and over the forward/backward
//! contract of each differentiable operation kind.

pub mod backend;
pub mod backward;
pub mod broadcast;
pub mod checkpoint;
pub mod device;
pub mod error;
pub mod grads;
pub mod graph;
pub mod idmap;
pub mod node;
pub mod ops;
pub mod prep;
pub mod state;
pub mod storage;
pub mod tensor;
pub mod traversal;
