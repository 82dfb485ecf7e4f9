//! The tensor operations of `candle_core` that the library calls, and what
//! is known of them.
//!
//! A tensor is held as an opaque `candle_core::Tensor`.  Four names describe
//! it: `tensor_shape`, the sizes of its axes; `tensor_elements`, the bit
//! patterns of its elements in row-major order; `tensor_on_cpu`, whether it
//! lives on the CPU; and `tensor_dtype`, the name of its element type.
use vstd::prelude::*;

verus! {

#[verifier::external_type_specification]
#[verifier::external_body]
pub struct ExTensor(candle_core::Tensor);

#[verifier::external_type_specification]
#[verifier::external_body]
pub struct ExDevice(candle_core::Device);

#[verifier::external_type_specification]
#[verifier::external_body]
pub struct ExCandleError(candle_core::Error);

/// The sizes of the axes of a tensor (what `Tensor::dims` returns).
pub uninterp spec fn tensor_shape(t: candle_core::Tensor) -> Seq<usize>;

/// The elements of a tensor in row-major order of its shape, each as its bit
/// pattern zero-extended to 64 bits (every element type of `candle_core` has
/// at most 64 bits; for `u32` the pattern is the value).
pub uninterp spec fn tensor_elements(t: candle_core::Tensor) -> Seq<u64>;

/// Whether a tensor lives on the CPU (`t.device().is_cpu()`).
pub uninterp spec fn tensor_on_cpu(t: candle_core::Tensor) -> bool;

/// The name of a tensor's element type (`t.dtype().as_str()`).
pub uninterp spec fn tensor_dtype(t: candle_core::Tensor) -> Seq<char>;

/// Whether an element type (by its name) is a floating-point type.
pub open spec fn is_float_dtype(dtype: Seq<char>) -> bool {
    dtype == "bf16"@ || dtype == "f16"@ || dtype == "f32"@ || dtype == "f64"@
}

/// Whether `bits` is the bit pattern of a NaN of floating-point element type
/// `dtype` (all exponent bits set, some mantissa bit set).
pub open spec fn is_nan_bits(dtype: Seq<char>, bits: u64) -> bool {
    if dtype == "f32"@ {
        bits & 0x7f80_0000u64 == 0x7f80_0000u64 && bits & 0x007f_ffffu64 != 0
    } else if dtype == "f64"@ {
        bits & 0x7ff0_0000_0000_0000u64 == 0x7ff0_0000_0000_0000u64 && bits
            & 0x000f_ffff_ffff_ffffu64 != 0
    } else if dtype == "f16"@ {
        bits & 0x7c00u64 == 0x7c00u64 && bits & 0x03ffu64 != 0
    } else if dtype == "bf16"@ {
        bits & 0x7f80u64 == 0x7f80u64 && bits & 0x007fu64 != 0
    } else {
        false
    }
}

/// Whether two element bit patterns are equal, or are both NaNs (the sign
/// and payload of a NaN that arithmetic produces are not fixed).
pub open spec fn same_or_both_nan(dtype: Seq<char>, a: u64, b: u64) -> bool {
    a == b || (is_nan_bits(dtype, a) && is_nan_bits(dtype, b))
}

/// The bit pattern of the product of two elements of floating-point type
/// `dtype`, as the elementwise multiplication of `candle_core` computes it.
/// Where the product is a NaN this is a NaN, and which one is left open.
pub uninterp spec fn elem_mul(dtype: Seq<char>, a: u64, b: u64) -> u64;

/// The bit pattern of the sum of two elements of floating-point type
/// `dtype`, as the elementwise addition of `candle_core` computes it.
/// Where the sum is a NaN this is a NaN, and which one is left open.
pub uninterp spec fn elem_add(dtype: Seq<char>, a: u64, b: u64) -> u64;

/// The bit pattern of the difference of two elements of floating-point type
/// `dtype`, as the elementwise subtraction of `candle_core` computes it.
/// Where the difference is a NaN this is a NaN, and which one is left open.
pub uninterp spec fn elem_sub(dtype: Seq<char>, a: u64, b: u64) -> u64;

/// Whether a device is the CPU (what `Device::is_cpu` returns).
pub uninterp spec fn device_is_cpu(d: candle_core::Device) -> bool;

/// Values of `u32` as element bit patterns.
pub open spec fn widen(s: Seq<u32>) -> Seq<u64> {
    s.map_values(|v: u32| v as u64)
}

/// The number of elements of a tensor of the given shape: the product of its
/// axis sizes (1 for a scalar).
pub open spec fn elem_count(shape: Seq<usize>) -> int
    decreases shape.len(),
{
    if shape.len() == 0 {
        1
    } else {
        elem_count(shape.drop_last()) * shape.last()
    }
}

/// An axis size, with 0 counted as 1.
pub open spec fn nonzero(n: usize) -> int {
    if n == 0 {
        1
    } else {
        n as int
    }
}

/// The product of the nonzero axis sizes of a shape.  `candle_core`
/// multiplies axis sizes in several orders (element counts, strides, block
/// sizes); each such partial product is 0 or a product of some nonzero axis
/// sizes, so it is at most this one.
pub open spec fn nonzero_count(shape: Seq<usize>) -> int
    decreases shape.len(),
{
    if shape.len() == 0 {
        1
    } else {
        nonzero_count(shape.drop_last()) * nonzero(shape.last())
    }
}

/// Whether every product that `candle_core` takes of the axis sizes of
/// `shape` fits in a `usize`.
pub open spec fn counts_fit(shape: Seq<usize>) -> bool {
    nonzero_count(shape) <= usize::MAX
}

/// Whether a tensor of shape `src` can be broadcast to shape `dst`: `dst` has
/// at least as many axes, and each axis of `src`, aligned on the right with
/// `dst`, has the size of the matching axis of `dst` or size 1.
pub open spec fn broadcast_compatible(src: Seq<usize>, dst: Seq<usize>) -> bool {
    &&& src.len() <= dst.len()
    &&& forall|i: int|
        0 <= i < src.len() ==> #[trigger] src[i] == dst[dst.len() - src.len() + i] || src[i]
            == 1
}

/// The row-major position of index `(i, j, k, l)` in a shape of four axes.
pub open spec fn index4(s: Seq<usize>, i: int, j: int, k: int, l: int) -> int {
    ((i * s[1] + j) * s[2] + k) * s[3] + l
}

/// The row-major position of index `(i, j, k, l, m)` in a shape of five axes.
pub open spec fn index5(s: Seq<usize>, i: int, j: int, k: int, l: int, m: int) -> int {
    (((i * s[1] + j) * s[2] + k) * s[3] + l) * s[4] + m
}

/// The index along an axis of size `n` that broadcasting reads for index `i`
/// of the target: 0 when the axis has size 1, `i` otherwise.
pub open spec fn broadcast_index(n: usize, i: int) -> int {
    if n == 1 {
        0
    } else {
        i
    }
}

/// Whether `(i, j, k, l)` is an index of a shape of four axes.
pub open spec fn in_bounds4(s: Seq<usize>, i: int, j: int, k: int, l: int) -> bool {
    0 <= i < s[0] && 0 <= j < s[1] && 0 <= k < s[2] && 0 <= l < s[3]
}

/// Errors of the library's tensor operations.
#[derive(Debug)]
pub enum TensorError {
    /// The tensor does not have the number of axes that the operation needs.
    Rank { expected: usize, found: usize },
    /// A product of axis sizes that the operation takes would not fit in a
    /// `usize`.
    TooLarge,
    /// The operation would do arithmetic on integer elements, which can
    /// overflow.
    IntegerElements,
    /// `candle_core` refused the operation.
    Backend(candle_core::Error),
}

/// `Tensor::dims`: the sizes of the tensor's axes, returned as a vector.
#[verifier::external_body]
pub(crate) fn tensor_dims(t: &candle_core::Tensor) -> (r: Vec<usize>)
    ensures
        r@ == tensor_shape(*t),
{
    t.dims().to_vec()
}

/// Whether two tensors have the same element type (`a.dtype() == b.dtype()`).
#[verifier::external_body]
pub(crate) fn tensor_same_dtype(a: &candle_core::Tensor, b: &candle_core::Tensor) -> (r: bool)
    ensures
        r == (tensor_dtype(*a) == tensor_dtype(*b)),
{
    a.dtype() == b.dtype()
}

/// Whether a tensor's element type is a floating-point one
/// (`t.dtype().is_float()`: `bf16`, `f16`, `f32` or `f64`).
#[verifier::external_body]
pub(crate) fn tensor_is_float(t: &candle_core::Tensor) -> (r: bool)
    ensures
        r == is_float_dtype(tensor_dtype(*t)),
{
    t.dtype().is_float()
}

/// `Tensor::clone`: the clone shares the storage, the layout and the device
/// of the original.
#[verifier::external_body]
pub(crate) fn tensor_clone(t: &candle_core::Tensor) -> (r: candle_core::Tensor)
    ensures
        tensor_shape(r) == tensor_shape(*t),
        tensor_elements(r) == tensor_elements(*t),
        tensor_on_cpu(r) == tensor_on_cpu(*t),
        tensor_dtype(r) == tensor_dtype(*t),
{
    t.clone()
}

/// `Tensor::from_vec` with a one-axis shape `(len,)`.  The call fails when the
/// vector does not hold `len` elements.  Otherwise it succeeds on the CPU,
/// which takes the vector as the tensor's storage; on another device it may
/// fail when the device refuses the storage.  A tensor it returns has shape
/// `[len]`, element type `u32`, holds the vector's elements in order and
/// lives on `device`.
#[verifier::external_body]
pub(crate) fn tensor_from_u32s(data: Vec<u32>, len: usize, device: &candle_core::Device) -> (r: Result<
    candle_core::Tensor,
    candle_core::Error,
>)
    ensures
        data@.len() != len ==> r is Err,
        data@.len() == len && device_is_cpu(*device) ==> r is Ok,
        r matches Ok(t) ==> {
            &&& tensor_shape(t) == seq![len]
            &&& tensor_elements(t) == widen(data@)
            &&& tensor_on_cpu(t) == device_is_cpu(*device)
            &&& tensor_dtype(t) == "u32"@
        },
{
    candle_core::Tensor::from_vec(data, len, device)
}

/// `Tensor::unsqueeze` with an axis index: fails exactly when `dim` exceeds
/// the number of axes; otherwise the result has an axis of size 1 inserted
/// at `dim`, the same elements in the same order, and the same device and
/// element type.
#[verifier::external_body]
pub(crate) fn tensor_unsqueeze(t: &candle_core::Tensor, dim: usize) -> (r: Result<
    candle_core::Tensor,
    candle_core::Error,
>)
    ensures
        r is Ok <==> dim <= tensor_shape(*t).len(),
        r matches Ok(u) ==> {
            &&& tensor_shape(u) == tensor_shape(*t).insert(dim as int, 1usize)
            &&& tensor_elements(u) == tensor_elements(*t)
            &&& tensor_on_cpu(u) == tensor_on_cpu(*t)
            &&& tensor_dtype(u) == tensor_dtype(*t)
        },
{
    t.unsqueeze(dim)
}

/// `Tensor::expand` to a shape of five axes: succeeds exactly when the
/// tensor's shape can be broadcast to the target, and then has the target
/// shape, the same device and element type, and (for a tensor of five axes)
/// at each index the element of the source at that index, with the axes of
/// size 1 read at 0.
#[verifier::external_body]
pub(crate) fn tensor_expand5(t: &candle_core::Tensor, dims: (usize, usize, usize, usize, usize)) -> (r:
    Result<candle_core::Tensor, candle_core::Error>)
    ensures
        r is Ok <==> broadcast_compatible(
            tensor_shape(*t),
            seq![dims.0, dims.1, dims.2, dims.3, dims.4],
        ),
        r matches Ok(u) ==> {
            let dst = seq![dims.0, dims.1, dims.2, dims.3, dims.4];
            let src = tensor_shape(*t);
            &&& tensor_shape(u) == dst
            &&& tensor_elements(u).len() == elem_count(dst)
            &&& tensor_on_cpu(u) == tensor_on_cpu(*t)
            &&& tensor_dtype(u) == tensor_dtype(*t)
            &&& src.len() == 5 ==> forall|i: int, j: int, k: int, l: int, m: int|
                0 <= i < dst[0] && 0 <= j < dst[1] && 0 <= k < dst[2] && 0 <= l < dst[3] && 0
                    <= m < dst[4] ==> #[trigger] tensor_elements(u)[index5(dst, i, j, k, l, m)]
                    == tensor_elements(*t)[index5(
                    src,
                    broadcast_index(src[0], i),
                    broadcast_index(src[1], j),
                    broadcast_index(src[2], k),
                    broadcast_index(src[3], l),
                    broadcast_index(src[4], m),
                )]
        },
{
    t.expand(dims)
}

/// `Tensor::reshape` to a shape of four axes.  The products of the axis
/// sizes of both shapes must fit in a `usize` (the call takes them).  The
/// call fails when the element counts differ; with equal counts it succeeds
/// on the CPU (it copies a non-contiguous tensor into fresh storage, which
/// another device may refuse).  A tensor it returns has the target shape,
/// the same elements in the same row-major order, and the same device and
/// element type.
#[verifier::external_body]
pub(crate) fn tensor_reshape4(t: &candle_core::Tensor, dims: (usize, usize, usize, usize)) -> (r: Result<
    candle_core::Tensor,
    candle_core::Error,
>)
    requires
        counts_fit(tensor_shape(*t)),
        counts_fit(seq![dims.0, dims.1, dims.2, dims.3]),
    ensures
        elem_count(tensor_shape(*t)) != elem_count(seq![dims.0, dims.1, dims.2, dims.3])
            ==> r is Err,
        elem_count(tensor_shape(*t)) == elem_count(seq![dims.0, dims.1, dims.2, dims.3])
            && tensor_on_cpu(*t) ==> r is Ok,
        r matches Ok(u) ==> {
            &&& tensor_shape(u) == seq![dims.0, dims.1, dims.2, dims.3]
            &&& tensor_elements(u) == tensor_elements(*t)
            &&& tensor_on_cpu(u) == tensor_on_cpu(*t)
            &&& tensor_dtype(u) == tensor_dtype(*t)
        },
{
    t.reshape(dims)
}

/// `Tensor::narrow`: keeps `count` entries of axis `dim`, from `start` on.
/// Fails exactly when `dim` is not an axis or the entries run past the end
/// of the axis; otherwise only the size of axis `dim` changes, to `count`,
/// and the device and element type stay.  The element at an index of the
/// result is the element of the source at the same index moved by `start`
/// along axis `dim` (stated for the last axis of four and the first of
/// two).  (`start + count` must fit in a `usize`: the call adds them.)
#[verifier::external_body]
pub(crate) fn tensor_narrow(t: &candle_core::Tensor, dim: usize, start: usize, count: usize) -> (r: Result<
    candle_core::Tensor,
    candle_core::Error,
>)
    requires
        start + count <= usize::MAX,
    ensures
        r is Ok <==> (dim < tensor_shape(*t).len() && start + count <= tensor_shape(*t)[dim as int]),
        r matches Ok(u) ==> {
            let ts = tensor_shape(*t);
            let us = ts.update(dim as int, count);
            &&& tensor_shape(u) == us
            &&& tensor_on_cpu(u) == tensor_on_cpu(*t)
            &&& tensor_dtype(u) == tensor_dtype(*t)
            &&& ts.len() == 4 && dim == 3 ==> forall|i: int, j: int, k: int, l: int|
                in_bounds4(us, i, j, k, l) ==> #[trigger] tensor_elements(u)[index4(us, i, j, k, l)]
                    == tensor_elements(*t)[index4(ts, i, j, k, start + l)]
            &&& ts.len() == 2 && dim == 0 ==> forall|row: int, col: int|
                0 <= row < count && 0 <= col < ts[1] ==> #[trigger] tensor_elements(u)[row * ts[1]
                    + col] == tensor_elements(*t)[(start + row) * ts[1] + col]
        },
{
    t.narrow(dim, start, count)
}

/// `Tensor::broadcast_mul`, where `rhs` broadcasts to the shape of `lhs`:
/// the product has the shape, device and element type of `lhs`.  It fails
/// only when the element types or the devices differ; with both on the CPU
/// and one element type it succeeds.  For operands of four axes, each
/// element of the product is that of `lhs` times the element of `rhs` that
/// broadcasting reads at the same index.
#[verifier::external_body]
pub(crate) fn tensor_broadcast_mul(lhs: &candle_core::Tensor, rhs: &candle_core::Tensor) -> (r: Result<
    candle_core::Tensor,
    candle_core::Error,
>)
    requires
        broadcast_compatible(tensor_shape(*rhs), tensor_shape(*lhs)),
        counts_fit(tensor_shape(*lhs)),
        tensor_dtype(*lhs) == tensor_dtype(*rhs) && elem_count(tensor_shape(*lhs)) != 0
            ==> is_float_dtype(tensor_dtype(*lhs)),
    ensures
        tensor_on_cpu(*lhs) && tensor_on_cpu(*rhs) && tensor_dtype(*lhs) == tensor_dtype(*rhs)
            ==> r is Ok,
        r matches Ok(u) ==> {
            let ls = tensor_shape(*lhs);
            let rs = tensor_shape(*rhs);
            &&& tensor_shape(u) == ls
            &&& tensor_on_cpu(u) == tensor_on_cpu(*lhs)
            &&& tensor_dtype(u) == tensor_dtype(*lhs)
            &&& elem_count(ls) != 0 ==> tensor_dtype(*lhs) == tensor_dtype(*rhs)
            &&& forall|a: u64, b: u64|
                is_nan_bits(tensor_dtype(*lhs), a) || is_nan_bits(tensor_dtype(*lhs), b)
                    ==> is_nan_bits(tensor_dtype(*lhs), #[trigger] elem_mul(tensor_dtype(*lhs), a, b))
            &&& ls.len() == 4 && rs.len() == 4 ==> forall|i: int, j: int, k: int, l: int|
                in_bounds4(ls, i, j, k, l) ==> same_or_both_nan(
                    tensor_dtype(*lhs),
                    #[trigger] tensor_elements(u)[index4(ls, i, j, k, l)],
                    elem_mul(
                    tensor_dtype(*lhs),
                    tensor_elements(*lhs)[index4(ls, i, j, k, l)],
                    tensor_elements(*rhs)[index4(
                        rs,
                        broadcast_index(rs[0], i),
                        broadcast_index(rs[1], j),
                        broadcast_index(rs[2], k),
                        broadcast_index(rs[3], l),
                    )],
                ),
                )
        },
{
    lhs.broadcast_mul(rhs)
}

/// `Tensor::add` (elementwise, no broadcasting): fails when the shapes
/// differ; with equal shapes, both on the CPU and one element type it
/// succeeds.  A sum has the shape, device and element type of its operands;
/// for four axes, each element is the sum of the operands' elements at that
/// index.
#[verifier::external_body]
pub(crate) fn tensor_add(lhs: &candle_core::Tensor, rhs: &candle_core::Tensor) -> (r: Result<
    candle_core::Tensor,
    candle_core::Error,
>)
    requires
        counts_fit(tensor_shape(*lhs)),
        tensor_dtype(*lhs) == tensor_dtype(*rhs) && elem_count(tensor_shape(*lhs)) != 0
            ==> is_float_dtype(tensor_dtype(*lhs)),
    ensures
        tensor_shape(*lhs) != tensor_shape(*rhs) ==> r is Err,
        tensor_shape(*lhs) == tensor_shape(*rhs) && tensor_on_cpu(*lhs) && tensor_on_cpu(*rhs)
            && tensor_dtype(*lhs) == tensor_dtype(*rhs) ==> r is Ok,
        r matches Ok(u) ==> {
            let ls = tensor_shape(*lhs);
            &&& tensor_shape(u) == ls
            &&& tensor_on_cpu(u) == tensor_on_cpu(*lhs)
            &&& tensor_dtype(u) == tensor_dtype(*lhs)
            &&& elem_count(ls) != 0 ==> tensor_dtype(*lhs) == tensor_dtype(*rhs)
            &&& forall|a: u64, b: u64|
                is_nan_bits(tensor_dtype(*lhs), a) || is_nan_bits(tensor_dtype(*lhs), b)
                    ==> is_nan_bits(tensor_dtype(*lhs), #[trigger] elem_add(tensor_dtype(*lhs), a, b))
            &&& ls.len() == 4 ==> forall|i: int, j: int, k: int, l: int|
                in_bounds4(ls, i, j, k, l) ==> same_or_both_nan(
                    tensor_dtype(*lhs),
                    #[trigger] tensor_elements(u)[index4(ls, i, j, k, l)],
                    elem_add(
                    tensor_dtype(*lhs),
                    tensor_elements(*lhs)[index4(ls, i, j, k, l)],
                    tensor_elements(*rhs)[index4(ls, i, j, k, l)],
                ),
                )
        },
{
    lhs.add(rhs)
}

/// `Tensor::sub` (elementwise, no broadcasting): fails when the shapes
/// differ; with equal shapes, both on the CPU and one element type it
/// succeeds.  A difference has the shape, device and element type of its
/// operands; for four axes, each element is the difference of the operands'
/// elements at that index.
#[verifier::external_body]
pub(crate) fn tensor_sub(lhs: &candle_core::Tensor, rhs: &candle_core::Tensor) -> (r: Result<
    candle_core::Tensor,
    candle_core::Error,
>)
    requires
        counts_fit(tensor_shape(*lhs)),
        tensor_dtype(*lhs) == tensor_dtype(*rhs) && elem_count(tensor_shape(*lhs)) != 0
            ==> is_float_dtype(tensor_dtype(*lhs)),
    ensures
        tensor_shape(*lhs) != tensor_shape(*rhs) ==> r is Err,
        tensor_shape(*lhs) == tensor_shape(*rhs) && tensor_on_cpu(*lhs) && tensor_on_cpu(*rhs)
            && tensor_dtype(*lhs) == tensor_dtype(*rhs) ==> r is Ok,
        r matches Ok(u) ==> {
            let ls = tensor_shape(*lhs);
            &&& tensor_shape(u) == ls
            &&& tensor_on_cpu(u) == tensor_on_cpu(*lhs)
            &&& tensor_dtype(u) == tensor_dtype(*lhs)
            &&& elem_count(ls) != 0 ==> tensor_dtype(*lhs) == tensor_dtype(*rhs)
            &&& forall|a: u64, b: u64|
                is_nan_bits(tensor_dtype(*lhs), a) || is_nan_bits(tensor_dtype(*lhs), b)
                    ==> is_nan_bits(tensor_dtype(*lhs), #[trigger] elem_sub(tensor_dtype(*lhs), a, b))
            &&& ls.len() == 4 ==> forall|i: int, j: int, k: int, l: int|
                in_bounds4(ls, i, j, k, l) ==> same_or_both_nan(
                    tensor_dtype(*lhs),
                    #[trigger] tensor_elements(u)[index4(ls, i, j, k, l)],
                    elem_sub(
                    tensor_dtype(*lhs),
                    tensor_elements(*lhs)[index4(ls, i, j, k, l)],
                    tensor_elements(*rhs)[index4(ls, i, j, k, l)],
                ),
                )
        },
{
    lhs.sub(rhs)
}

/// Whether two shapes of the same rank agree on every axis but `dim`.
pub open spec fn agree_except(a: Seq<usize>, b: Seq<usize>, dim: int) -> bool {
    &&& a.len() == b.len()
    &&& forall|i: int| 0 <= i < a.len() && i != dim ==> #[trigger] a[i] == b[i]
}

/// `Tensor::cat` of two tensors along their last axis `dim`.  Fails when
/// their ranks differ; when the shapes agree on the other axes, both are on
/// the CPU and they have one element type, it succeeds.  A tensor it returns
/// has the shape of `a`, with axis `dim` as long as the two axes `dim`
/// together, and the device and element type of `a`; for four axes, the
/// elements of `a` come first along axis `dim`, then those of `b`.  (The
/// call adds the
/// two lengths and multiplies the axis sizes of the result, which must
/// fit in a `usize`.)
#[verifier::external_body]
pub(crate) fn tensor_cat2(a: &candle_core::Tensor, b: &candle_core::Tensor, dim: usize) -> (r: Result<
    candle_core::Tensor,
    candle_core::Error,
>)
    requires
        dim + 1 == tensor_shape(*a).len(),
        dim < tensor_shape(*b).len() ==> {
            &&& tensor_shape(*a)[dim as int] + tensor_shape(*b)[dim as int] <= usize::MAX
            &&& counts_fit(
                tensor_shape(*a).update(
                    dim as int,
                    (tensor_shape(*a)[dim as int] + tensor_shape(*b)[dim as int]) as usize,
                ),
            )
        },
    ensures
        tensor_shape(*a).len() != tensor_shape(*b).len() ==> r is Err,
        agree_except(tensor_shape(*a), tensor_shape(*b), dim as int) && tensor_on_cpu(*a)
            && tensor_on_cpu(*b) && tensor_dtype(*a) == tensor_dtype(*b) ==> r is Ok,
        r matches Ok(u) ==> {
            let as_ = tensor_shape(*a);
            let bs = tensor_shape(*b);
            let us = as_.update(dim as int, (as_[dim as int] + bs[dim as int]) as usize);
            &&& tensor_shape(u) == us
            &&& tensor_on_cpu(u) == tensor_on_cpu(*a)
            &&& tensor_dtype(u) == tensor_dtype(*a)
            &&& us.len() == 4 ==> forall|i: int, j: int, k: int, l: int|
                in_bounds4(us, i, j, k, l) ==> #[trigger] tensor_elements(u)[index4(us, i, j, k, l)]
                    == if l < as_[3] {
                    tensor_elements(*a)[index4(as_, i, j, k, l)]
                } else {
                    tensor_elements(*b)[index4(bs, i, j, k, l - as_[3])]
                }
        },
{
    candle_core::Tensor::cat(&[a, b], dim)
}

/// The product of the nonzero axis sizes of a prefix of a shape is at most
/// that of a longer prefix.
pub(crate) proof fn lemma_nonzero_count_prefix(s: Seq<usize>, j: int, k: int)
    requires
        0 <= j <= k <= s.len(),
    ensures
        nonzero_count(s.take(j)) <= nonzero_count(s.take(k)),
    decreases k - j,
{
    if j < k {
        lemma_nonzero_count_prefix(s, j, k - 1);
        let pre = s.take(k - 1);
        assert(s.take(k).drop_last() =~= pre);
        lemma_nonzero_count_positive(pre);
        let x = nonzero_count(pre);
        let y = nonzero(s.take(k).last());
        assert(x <= x * y) by (nonlinear_arith)
            requires
                x >= 1,
                y >= 1,
        ;
    }
}

/// Whether every product that `candle_core` takes of the axis sizes `dims`
/// fits in a `usize`.
pub fn shape_counts_fit(dims: &Vec<usize>) -> (b: bool)
    ensures
        b == counts_fit(dims@),
{
    let mut acc: usize = 1;
    let mut i: usize = 0;
    while i < dims.len()
        invariant
            i <= dims@.len(),
            acc == nonzero_count(dims@.take(i as int)),
        decreases dims@.len() - i,
    {
        let d = dims[i];
        let f: usize = if d == 0 {
            1
        } else {
            d
        };
        assert(dims@.take(i + 1).drop_last() =~= dims@.take(i as int));
        match acc.checked_mul(f) {
            Some(m) => {
                acc = m;
            },
            None => {
                proof {
                    lemma_nonzero_count_prefix(dims@, i + 1, dims@.len() as int);
                    assert(dims@.take(dims@.len() as int) =~= dims@);
                }
                return false;
            },
        }
        i = i + 1;
    }
    assert(dims@.take(dims@.len() as int) =~= dims@);
    true
}

/// Every factor of `nonzero_count` is at least 1, so the product is too.
pub(crate) proof fn lemma_nonzero_count_positive(s: Seq<usize>)
    ensures
        nonzero_count(s) >= 1,
    decreases s.len(),
{
    if s.len() > 0 {
        lemma_nonzero_count_positive(s.drop_last());
        let x = nonzero_count(s.drop_last());
        let y = nonzero(s.last());
        assert(x * y >= 1) by (nonlinear_arith)
            requires
                x >= 1,
                y >= 1,
        ;
    }
}

/// The product of the nonzero axis sizes grows with the axis sizes.
pub(crate) proof fn lemma_nonzero_count_monotone(small: Seq<usize>, big: Seq<usize>)
    requires
        small.len() == big.len(),
        forall|i: int| 0 <= i < small.len() ==> #[trigger] small[i] <= big[i],
    ensures
        nonzero_count(small) <= nonzero_count(big),
    decreases small.len(),
{
    if small.len() > 0 {
        let s0 = small.drop_last();
        let b0 = big.drop_last();
        assert forall|i: int| 0 <= i < s0.len() implies #[trigger] s0[i] <= b0[i] by {
            assert(small[i] <= big[i]);
        }
        lemma_nonzero_count_monotone(s0, b0);
        lemma_nonzero_count_positive(s0);
        let x = nonzero_count(s0);
        let y = nonzero_count(b0);
        let a = nonzero(small.last());
        let b = nonzero(big.last());
        assert(small[small.len() - 1] <= big[big.len() - 1]);
        assert(a <= b);
        assert(x * a <= y * b) by (nonlinear_arith)
            requires
                1 <= x <= y,
                1 <= a <= b,
        ;
    }
}

} // verus!
