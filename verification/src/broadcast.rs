//! Broadcast-gradient correction: when the forward pass implicitly
//! broadcast a size-one axis of an operand, the backward contribution is
//! summed over that axis, restoring the operand's shape exactly. A
//! mismatch that summation cannot repair is an invariant violation and is
//! reported with both shapes.

use vstd::prelude::*;

use crate::backend::{Backend, Shape};
use crate::error::AutodiffError;

verus! {

/// The corrected gradient once the axes below `i` are settled: an axis
/// where the gradient's size equals the operand's is kept, one where the
/// operand's size is one is summed down, and anything else fails with the
/// gradient's shape at that point.
pub open spec fn reduce_broadcast<V, B: Backend<V>>(g: V, dims: Seq<usize>, i: int) -> Result<
    V,
    Seq<usize>,
>
    decreases dims.len() - i,
{
    if i < 0 || i >= dims.len() {
        Ok(g)
    } else {
        let gshape = B::spec_shape(g);
        if gshape[i] == dims[i] {
            reduce_broadcast::<V, B>(g, dims, i + 1)
        } else if dims[i] == 1 {
            reduce_broadcast::<V, B>(B::spec_sum_dim(g, i), dims, i + 1)
        } else {
            Err(gshape)
        }
    }
}

/// The corrected gradient for an operand shape, or the shape pair that
/// could not be reconciled (ranks must agree to begin with).
pub open spec fn spec_broadcast<V, B: Backend<V>>(grad: V, dims: Seq<usize>) -> Result<
    V,
    Seq<usize>,
> {
    if B::spec_shape(grad).len() == dims.len() {
        reduce_broadcast::<V, B>(grad, dims, 0)
    } else {
        Err(B::spec_shape(grad))
    }
}

/// A field-for-field copy of a dimension vector.
fn copy_dims(dims: &Vec<usize>) -> (r: Vec<usize>)
    ensures
        r@ == dims@,
{
    let mut out: Vec<usize> = Vec::new();
    let n = dims.len();
    let mut i: usize = 0;
    while i < n
        invariant
            i <= n,
            n == dims@.len(),
            out@.len() == i,
            forall|k: int| 0 <= k < i ==> out@[k] == dims@[k],
        decreases n - i,
    {
        out.push(dims[i]);
        i = i + 1;
    }
    proof {
        assert(out@ =~= dims@);
    }
    out
}

/// Make sure the gradient has the given shape: sum it along every axis
/// that the forward pass broadcast from size one, and fail — reporting
/// both shapes — on any mismatch that summation cannot repair.
#[verifier::loop_isolation(false)]
pub fn broadcast_shape<V, B: Backend<V>>(grad: V, shape: &Shape) -> (r: Result<V, AutodiffError>)
    ensures
        match spec_broadcast::<V, B>(grad, shape.dims@) {
            Ok(v) => r matches Ok(g) && g == v,
            Err(gd) => r matches Err(e) && e matches AutodiffError::ShapeMismatch {
                grad_dims,
                expected_dims,
            } && grad_dims@ == gd && expected_dims@ == shape.dims@,
        },
{
    let gshape = B::shape(&grad);
    let n = shape.dims.len();
    if gshape.dims.len() != n {
        return Err(
            AutodiffError::ShapeMismatch {
                grad_dims: gshape.dims,
                expected_dims: copy_dims(&shape.dims),
            },
        );
    }
    let mut g = grad;
    let mut i: usize = 0;
    while i < n
        invariant
            i <= n,
            B::spec_shape(g).len() == n,
            reduce_broadcast::<V, B>(g, shape.dims@, i as int) == reduce_broadcast::<V, B>(
                grad,
                shape.dims@,
                0,
            ),
        decreases n - i,
    {
        let gs = B::shape(&g);
        if gs.dims[i] != shape.dims[i] {
            if shape.dims[i] != 1 {
                return Err(
                    AutodiffError::ShapeMismatch {
                        grad_dims: gs.dims,
                        expected_dims: copy_dims(&shape.dims),
                    },
                );
            }
            g = B::sum_dim(g, i);
        }
        i = i + 1;
    }
    Ok(g)
}

/// When every axis agrees, the correction changes nothing.
pub proof fn lemma_reduce_identity<V, B: Backend<V>>(g: V, dims: Seq<usize>, j: int)
    requires
        B::spec_shape(g).len() == dims.len(),
        forall|k: int| j <= k < dims.len() ==> B::spec_shape(g)[k] == dims[k],
    ensures
        reduce_broadcast::<V, B>(g, dims, j) == Ok::<V, Seq<usize>>(g),
    decreases dims.len() - j,
{
    if 0 <= j < dims.len() {
        lemma_reduce_identity::<V, B>(g, dims, j + 1);
    }
}

/// Broadcast reduction: a gradient whose only disagreement with the
/// operand shape is one axis that the operand holds with size one is
/// corrected by summing over exactly that axis. The hypothesis on
/// `spec_sum_dim` is the shape behaviour every backend kernel promises.
pub proof fn lemma_broadcast_reduces_by_sum<V, B: Backend<V>>(grad: V, dims: Seq<usize>, i: int)
    requires
        B::spec_shape(grad).len() == dims.len(),
        0 <= i < dims.len(),
        B::spec_shape(grad)[i] != dims[i],
        dims[i] == 1,
        forall|k: int| 0 <= k < dims.len() && k != i ==> B::spec_shape(grad)[k] == dims[k],
        B::spec_shape(B::spec_sum_dim(grad, i)) == B::spec_shape(grad).update(i, 1usize),
    ensures
        spec_broadcast::<V, B>(grad, dims) == Ok::<V, Seq<usize>>(B::spec_sum_dim(grad, i)),
{
    lemma_reduce_single::<V, B>(grad, dims, i, 0);
}

/// Walking up to the single mismatching axis and summing there settles
/// every remaining axis.
proof fn lemma_reduce_single<V, B: Backend<V>>(grad: V, dims: Seq<usize>, i: int, j: int)
    requires
        B::spec_shape(grad).len() == dims.len(),
        0 <= j <= i < dims.len(),
        B::spec_shape(grad)[i] != dims[i],
        dims[i] == 1,
        forall|k: int| 0 <= k < dims.len() && k != i ==> B::spec_shape(grad)[k] == dims[k],
        B::spec_shape(B::spec_sum_dim(grad, i)) == B::spec_shape(grad).update(i, 1usize),
    ensures
        reduce_broadcast::<V, B>(grad, dims, j) == Ok::<V, Seq<usize>>(B::spec_sum_dim(grad, i)),
    decreases i - j,
{
    if j == i {
        let g2 = B::spec_sum_dim(grad, i);
        lemma_reduce_identity::<V, B>(g2, dims, i + 1);
    } else {
        lemma_reduce_single::<V, B>(grad, dims, i, j + 1);
    }
}

} // verus!
