//! Trusted boundary to candle's tensors.
//!
//! A `candle_core::Tensor` is opaque to the verifier; these wrappers give
//! the handful of tensor operations the library needs contracts over three
//! named observations: the tensor's extents (`dims_of`), its element type
//! (`dtype_of`) and its device (`device_of`). Every contract states only
//! what `candle_core`'s source shows of the operation; the element values
//! themselves are never spoken of.
use vstd::prelude::*;

verus! {

#[verifier::external_type_specification]
#[verifier::external_body]
pub struct ExTensor(candle_core::Tensor);

#[verifier::external_type_specification]
#[verifier::external_body]
pub struct ExCandleError(candle_core::Error);

/// The extents of a tensor, one per dimension (so rank is its length).
pub uninterp spec fn dims_of(t: candle_core::Tensor) -> Seq<usize>;

/// Identifies a tensor's element type (its dtype).
pub uninterp spec fn dtype_of(t: candle_core::Tensor) -> int;

/// Identifies the device a tensor's storage lives on.
pub uninterp spec fn device_of(t: candle_core::Tensor) -> int;

/// Relies on candle_core::Tensor::dims: the tensor's extents, one per
/// dimension.
#[verifier::external_body]
pub fn tensor_dims(t: &candle_core::Tensor) -> (r: Vec<usize>)
    ensures
        r@ == dims_of(*t),
{
    t.dims().to_vec()
}

/// Relies on candle_core::Tensor::narrow: restricts dimension `dim` to the
/// rows `[start, start + len)`. Within bounds the call cannot fail, only
/// that one extent changes, and dtype and device carry over.
#[verifier::external_body]
pub fn tensor_narrow(t: &candle_core::Tensor, dim: usize, start: usize, len: usize) -> (r:
    candle_core::Tensor)
    requires
        dim < dims_of(*t).len(),
        start + len <= dims_of(*t)[dim as int],
    ensures
        dims_of(r) == dims_of(*t).update(dim as int, len),
        dtype_of(r) == dtype_of(*t),
        device_of(r) == device_of(*t),
{
    t.narrow(dim, start, len).unwrap()
}

/// Relies on candle_core::Tensor::cat along dimension 0: stacks `a`'s rows
/// before `b`'s. Both tensors must agree on rank, on every other extent,
/// on element type and on device; then the call cannot fail.
#[verifier::external_body]
pub fn tensor_cat2(a: &candle_core::Tensor, b: &candle_core::Tensor) -> (r: candle_core::Tensor)
    requires
        dims_of(*a).len() >= 1,
        dims_of(*a).len() == dims_of(*b).len(),
        forall|i: int| 1 <= i < dims_of(*a).len() ==> dims_of(*a)[i] == dims_of(*b)[i],
        dims_of(*a)[0] + dims_of(*b)[0] <= usize::MAX,
        dtype_of(*a) == dtype_of(*b),
        device_of(*a) == device_of(*b),
    ensures
        dims_of(r) == dims_of(*a).update(0, (dims_of(*a)[0] + dims_of(*b)[0]) as usize),
        dtype_of(r) == dtype_of(*a),
        device_of(r) == device_of(*a),
{
    candle_core::Tensor::cat(&[a, b], 0).unwrap()
}

/// Relies on candle_core::Tensor::get: the sub-tensor at index `i` of the
/// first dimension, with that dimension dropped. In bounds it cannot fail.
#[verifier::external_body]
pub fn tensor_get(t: &candle_core::Tensor, i: usize) -> (r: candle_core::Tensor)
    requires
        dims_of(*t).len() >= 1,
        i < dims_of(*t)[0],
    ensures
        dims_of(r) == dims_of(*t).skip(1),
        dtype_of(r) == dtype_of(*t),
        device_of(r) == device_of(*t),
{
    t.get(i).unwrap()
}

/// Relies on candle_core::Tensor::unsqueeze: inserts an extent of one at
/// position `dim` without touching the data.
#[verifier::external_body]
pub fn tensor_unsqueeze(t: &candle_core::Tensor, dim: usize) -> (r: candle_core::Tensor)
    requires
        dim <= dims_of(*t).len(),
    ensures
        dims_of(r) == dims_of(*t).insert(dim as int, 1usize),
        dtype_of(r) == dtype_of(*t),
        device_of(r) == device_of(*t),
{
    t.unsqueeze(dim).unwrap()
}

/// Relies on candle_core::Tensor::clone: a tensor is an immutable shared
/// value, so the clone is the same tensor.
#[verifier::external_body]
pub fn tensor_clone(t: &candle_core::Tensor) -> (r: candle_core::Tensor)
    ensures
        r == *t,
{
    t.clone()
}

} // verus!
