//! The contract a numeric backend owes the autodiff core: a tensor-primitive
//! value type together with the few kernels gradient bookkeeping needs —
//! elementwise addition for fan-in accumulation, axis-wise summation for
//! broadcast correction, shape introspection, and a ones tensor to seed the
//! backward pass. Each executable kernel is pinned to its own mathematical
//! function, so replaying a kernel on equal inputs gives equal outputs.

use vstd::prelude::*;

verus! {

/// The dimensions of a tensor value.
#[derive(Debug, Clone)]
pub struct Shape {
    /// Size of each axis, outermost first.
    pub dims: Vec<usize>,
}

/// Kernels and introspection a backend provides over its tensor primitive
/// `V`. Implementations must make each executable method agree with its
/// mathematical counterpart on every input, which is what makes forward
/// replay and gradient accumulation deterministic.
pub trait Backend<V>: Sized {
    /// Mathematical shape of a tensor value.
    closed spec fn spec_shape(t: V) -> Seq<usize> {
        arbitrary()
    }

    /// Mathematical elementwise sum of two tensor values.
    closed spec fn spec_add(a: V, b: V) -> V {
        arbitrary()
    }

    /// Mathematical sum of a tensor over one axis, keeping the axis with
    /// size one.
    closed spec fn spec_sum_dim(t: V, dim: int) -> V {
        arbitrary()
    }

    /// Mathematical all-ones tensor of a shape.
    closed spec fn spec_ones(dims: Seq<usize>) -> V {
        arbitrary()
    }

    /// Shape introspection.
    fn shape(t: &V) -> (r: Shape)
        ensures
            r.dims@ == Self::spec_shape(*t),
    ;

    /// Elementwise addition, used to merge gradient contributions.
    fn add(a: &V, b: &V) -> (r: V)
        ensures
            r == Self::spec_add(*a, *b),
    ;

    /// Sum over the axis `dim`; the result keeps the axis with size one.
    fn sum_dim(t: V, dim: usize) -> (r: V)
        requires
            (dim as int) < Self::spec_shape(t).len(),
        ensures
            r == Self::spec_sum_dim(t, dim as int),
            Self::spec_shape(r) == Self::spec_shape(t).update(dim as int, 1usize),
    ;

    /// The all-ones tensor of the given shape, seeding a backward pass.
    fn ones(shape: &Shape) -> (r: V)
        ensures
            r == Self::spec_ones(shape.dims@),
            Self::spec_shape(r) == shape.dims@,
    ;

    /// A bit-identical copy of a tensor value.
    fn clone_value(t: &V) -> (r: V)
        ensures
            r == *t,
    ;
}

} // verus!
