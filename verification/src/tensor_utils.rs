//! Repeating key/value heads for grouped-query attention.
use vstd::prelude::*;
use crate::tensor::{
    broadcast_index,
    counts_fit,
    elem_count,
    index4,
    index5,
    nonzero,
    nonzero_count,
    shape_counts_fit,
    tensor_clone,
    tensor_dims,
    tensor_dtype,
    tensor_elements,
    tensor_expand5,
    tensor_on_cpu,
    tensor_reshape4,
    tensor_shape,
    tensor_unsqueeze,
    TensorError,
};

verus! {

/// The element count and the product of the nonzero axis sizes of a shape of
/// four and of five axes.
proof fn lemma_counts_4_5(a: usize, b: usize, c: usize, d: usize, e: usize)
    ensures
        elem_count(seq![a, b, c, d]) == a * b * c * d,
        elem_count(seq![a, b, c, d, e]) == a * b * c * d * e,
        nonzero_count(seq![a, b, c, d]) == nonzero(a) * nonzero(b) * nonzero(c) * nonzero(d),
        nonzero_count(seq![a, b, c, d, e]) == nonzero(a) * nonzero(b) * nonzero(c) * nonzero(d)
            * nonzero(e),
{
    reveal_with_fuel(elem_count, 6);
    reveal_with_fuel(nonzero_count, 6);
    assert(seq![a].drop_last() =~= Seq::<usize>::empty());
    assert(seq![a, b].drop_last() =~= seq![a]);
    assert(seq![a, b, c].drop_last() =~= seq![a, b]);
    assert(seq![a, b, c, d].drop_last() =~= seq![a, b, c]);
    assert(seq![a, b, c, d, e].drop_last() =~= seq![a, b, c, d]);
}

/// Merging two adjacent axes keeps the element count, and keeps the
/// products of the axis sizes within those of the unmerged shape.
proof fn lemma_merged_axes_fit(b: usize, n: usize, r: usize, s: usize, d: usize)
    requires
        counts_fit(seq![b, n, r, s, d]),
        n * r <= usize::MAX,
    ensures
        counts_fit(seq![b, (n * r) as usize, s, d]),
        elem_count(seq![b, n, r, s, d]) == elem_count(seq![b, (n * r) as usize, s, d]),
{
    let nr = (n * r) as usize;
    lemma_counts_4_5(b, n, r, s, d);
    lemma_counts_4_5(b, nr, s, d, 0);
    assert(b * nr * s * d == b * n * r * s * d) by (nonlinear_arith)
        requires
            nr == n * r,
    ;
    let (zb, zn, zr, zs, zd, znr) = (
        nonzero(b),
        nonzero(n),
        nonzero(r),
        nonzero(s),
        nonzero(d),
        nonzero(nr),
    );
    assert(znr <= zn * zr) by (nonlinear_arith)
        requires
            nr == n * r,
            zn == (if n == 0 {
                1
            } else {
                n as int
            }),
            zr == (if r == 0 {
                1
            } else {
                r as int
            }),
            znr == (if nr == 0 {
                1
            } else {
                nr as int
            }),
    ;
    assert(zb * znr * zs * zd <= zb * zn * zr * zs * zd) by (nonlinear_arith)
        requires
            znr <= zn * zr,
            zb >= 1,
            zs >= 1,
            zd >= 1,
    ;
}

/// Output head `g` of the repetition reads head `g / n_rep`, copy
/// `g % n_rep`, of the expanded tensor; and the expanded tensor's source,
/// with its axis of size 1, is laid out as the input.
proof fn lemma_repeat_indices(
    b: usize,
    n: usize,
    r: usize,
    s: usize,
    d: usize,
    i: int,
    g: int,
    p: int,
    c: int,
)
    requires
        0 <= i < b,
        0 <= g < n * r,
        0 <= p < s,
        0 <= c < d,
        n * r <= usize::MAX,
    ensures
        r > 0,
        0 <= g / (r as int) < n,
        0 <= g % (r as int) < r,
        index4(seq![b, (n * r) as usize, s, d], i, g, p, c) == index5(
            seq![b, n, r, s, d],
            i,
            g / (r as int),
            g % (r as int),
            p,
            c,
        ),
        index5(seq![b, n, 1usize, s, d], i, g / (r as int), 0, p, c) == index4(
            seq![b, n, s, d],
            i,
            g / (r as int),
            p,
            c,
        ),
{
    let rr = r as int;
    let nn = n as int;
    assert(rr > 0) by (nonlinear_arith)
        requires
            0 <= g < nn * rr,
            nn >= 0,
            rr >= 0,
    ;
    let h = g / rr;
    let k = g % rr;
    assert(g == h * rr + k && 0 <= k < rr) by (nonlinear_arith)
        requires
            rr > 0,
            h == g / rr,
            k == g % rr,
    ;
    assert(0 <= h < nn) by (nonlinear_arith)
        requires
            rr > 0,
            g == h * rr + k,
            0 <= k < rr,
            0 <= g < nn * rr,
    ;
    assert(i * (nn * rr) + g == (i * nn + h) * rr + k) by (nonlinear_arith)
        requires
            g == h * rr + k,
    ;
    assert((i * nn + h) * 1 + 0 == i * nn + h) by (nonlinear_arith);
}

/// Whether the products of axis sizes that `repeat_kv(x, n_rep)` takes fit
/// in a `usize`.
pub open spec fn repeat_kv_fits(x: candle_core::Tensor, n_rep: usize) -> bool {
    n_rep != 1 && tensor_shape(x).len() == 4 ==> {
        let s = tensor_shape(x);
        &&& s[1] * n_rep <= usize::MAX
        &&& counts_fit(seq![s[0], s[1], n_rep, s[2], s[3]])
    }
}

/// What `repeat_kv(x, n_rep)` returns.  With `n_rep == 1`: `x` itself
/// (its shape, elements, device and element type).  Otherwise a tensor
/// without four axes gets `Rank`, and only such a tensor does; on the CPU
/// the repetition succeeds; and a result of shape `(b, n * n_rep, s, d)`
/// holds at head `g` head `g / n_rep` of `x`, on the device and with the
/// element type of `x`.
pub open spec fn repeat_kv_result(
    x: candle_core::Tensor,
    n_rep: usize,
    r: Result<candle_core::Tensor, TensorError>,
) -> bool {
    &&& n_rep == 1 ==> (r matches Ok(t) && tensor_shape(t) == tensor_shape(x) && tensor_elements(t)
        == tensor_elements(x) && tensor_on_cpu(t) == tensor_on_cpu(x) && tensor_dtype(t)
        == tensor_dtype(x))
    &&& n_rep != 1 && tensor_shape(x).len() != 4 ==> (r matches Err(TensorError::Rank {
        expected,
        found,
    }) && expected == 4 && found == tensor_shape(x).len())
    &&& r matches Err(TensorError::Rank { .. }) ==> n_rep != 1 && tensor_shape(x).len() != 4
    &&& !(r matches Err(TensorError::TooLarge))
    &&& !(r matches Err(TensorError::IntegerElements))
    &&& n_rep != 1 && tensor_shape(x).len() == 4 && tensor_on_cpu(x) ==> r is Ok
    &&& n_rep != 1 && tensor_shape(x).len() == 4 ==> (r matches Ok(y) ==> {
        let s = tensor_shape(x);
        let out = seq![s[0], (s[1] * n_rep) as usize, s[2], s[3]];
        &&& tensor_shape(y) == out
        &&& tensor_elements(y).len() == elem_count(out)
        &&& tensor_on_cpu(y) == tensor_on_cpu(x)
        &&& tensor_dtype(y) == tensor_dtype(x)
        &&& forall|i: int, g: int, p: int, c: int|
            0 <= i < out[0] && 0 <= g < out[1] && 0 <= p < out[2] && 0 <= c < out[3]
                ==> #[trigger] tensor_elements(y)[index4(out, i, g, p, c)] == tensor_elements(
                x,
            )[index4(s, i, g / (n_rep as int), p, c)]
    })
}

/// Repeats each key/value head `n_rep` times along the head axis.
///
/// `x` has shape `(batch, n_kv_heads, seq_len, head_dim)`; the result has
/// shape `(batch, n_kv_heads * n_rep, seq_len, head_dim)`, in which heads
/// `h * n_rep .. (h + 1) * n_rep` are copies of head `h`.  With `n_rep == 1`
/// the input is returned as it is, whatever its rank; otherwise a tensor
/// without four axes is refused.  On the CPU the repetition always succeeds.
pub fn repeat_kv(x: &candle_core::Tensor, n_rep: usize) -> (r: Result<
    candle_core::Tensor,
    TensorError,
>)
    requires
        repeat_kv_fits(*x, n_rep),
    ensures
        repeat_kv_result(*x, n_rep, r),
        n_rep == 1 ==> (r matches Ok(y) && tensor_shape(y) == tensor_shape(*x) && tensor_elements(y)
            == tensor_elements(*x)),
        n_rep != 1 ==> ((r matches Err(TensorError::Rank { .. })) <==> tensor_shape(*x).len() != 4),
        n_rep != 1 && tensor_shape(*x).len() == 4 && tensor_on_cpu(*x) ==> r is Ok,
        n_rep != 1 && tensor_shape(*x).len() == 4 ==> (r matches Ok(y) ==> {
            let s = tensor_shape(*x);
            &&& tensor_shape(y) == seq![s[0], (s[1] * n_rep) as usize, s[2], s[3]]
            &&& forall|i: int, g: int, p: int, c: int|
                #![trigger tensor_elements(y)[((i * (s[1] * n_rep) + g) * s[2] + p) * s[3] + c]]
                0 <= i < s[0] && 0 <= g < s[1] * n_rep && 0 <= p < s[2] && 0 <= c < s[3]
                    ==> tensor_elements(y)[((i * (s[1] * n_rep) + g) * s[2] + p) * s[3] + c]
                    == tensor_elements(*x)[((i * s[1] + g / (n_rep as int)) * s[2] + p) * s[3]
                    + c]
        }),
{
    if n_rep == 1 {
        return Ok(tensor_clone(x));
    }
    let dims = tensor_dims(x);
    if dims.len() != 4 {
        return Err(TensorError::Rank { expected: 4, found: dims.len() });
    }
    let b = dims[0];
    let n_kv_heads = dims[1];
    let seq_len = dims[2];
    let head_dim = dims[3];
    // (b, n_kv_heads, seq_len, head_dim) -> (b, n_kv_heads, 1, seq_len, head_dim)
    let u = match tensor_unsqueeze(x, 2) {
        Ok(t) => t,
        Err(e) => return Err(TensorError::Backend(e)),
    };
    let ghost src = seq![b, n_kv_heads, 1usize, seq_len, head_dim];
    let ghost dst = seq![b, n_kv_heads, n_rep, seq_len, head_dim];
    proof {
        assert(tensor_shape(u) =~= src);
        assert(crate::tensor::broadcast_compatible(src, dst));
    }
    // expand to (b, n_kv_heads, n_rep, seq_len, head_dim)
    let e = match tensor_expand5(&u, (b, n_kv_heads, n_rep, seq_len, head_dim)) {
        Ok(t) => t,
        Err(e) => return Err(TensorError::Backend(e)),
    };
    // reshape to (b, n_kv_heads * n_rep, seq_len, head_dim)
    proof {
        lemma_merged_axes_fit(b, n_kv_heads, n_rep, seq_len, head_dim);
    }
    let y = match tensor_reshape4(&e, (b, n_kv_heads * n_rep, seq_len, head_dim)) {
        Ok(t) => t,
        Err(err) => return Err(TensorError::Backend(err)),
    };
    proof {
        let s = tensor_shape(*x);
        let out = seq![b, (n_kv_heads * n_rep) as usize, seq_len, head_dim];
        assert(s =~= seq![b, n_kv_heads, seq_len, head_dim]);
        assert forall|i: int, g: int, p: int, c: int|
            0 <= i < out[0] && 0 <= g < out[1] && 0 <= p < out[2] && 0 <= c < out[3] implies #[trigger] tensor_elements(
            y,
        )[index4(out, i, g, p, c)] == tensor_elements(*x)[index4(s, i, g / (n_rep as int), p, c)] by {
            lemma_repeat_indices(b, n_kv_heads, n_rep, seq_len, head_dim, i, g, p, c);
            let h = g / (n_rep as int);
            let k = g % (n_rep as int);
            assert(broadcast_index(b, i) == i);
            assert(broadcast_index(n_kv_heads, h) == h);
            assert(broadcast_index(1usize, k) == 0);
            assert(broadcast_index(seq_len, p) == p);
            assert(broadcast_index(head_dim, c) == c);
            assert(tensor_elements(e)[index5(dst, i, h, k, p, c)] == tensor_elements(u)[index5(
                src,
                i,
                h,
                0,
                p,
                c,
            )]);
        }
        lemma_repeat_spelled_out(*x, n_rep, y);
    }
    Ok(y)
}

/// The repetition spelled out: output head `g` of batch entry `i` is input
/// head `g / n_rep`, element for element, so heads
/// `h * n_rep .. (h + 1) * n_rep` are all copies of head `h`.
pub proof fn lemma_repeat_spelled_out(x: candle_core::Tensor, n_rep: usize, y: candle_core::Tensor)
    requires
        n_rep != 1,
        tensor_shape(x).len() == 4,
        repeat_kv_fits(x, n_rep),
        repeat_kv_result(x, n_rep, Ok(y)),
    ensures
        ({
            let s = tensor_shape(x);
            &&& tensor_shape(y) == seq![s[0], (s[1] * n_rep) as usize, s[2], s[3]]
            &&& forall|i: int, g: int, p: int, c: int|
                #![trigger tensor_elements(y)[((i * (s[1] * n_rep) + g) * s[2] + p) * s[3] + c]]
                0 <= i < s[0] && 0 <= g < s[1] * n_rep && 0 <= p < s[2] && 0 <= c < s[3]
                    ==> tensor_elements(y)[((i * (s[1] * n_rep) + g) * s[2] + p) * s[3] + c]
                    == tensor_elements(x)[((i * s[1] + g / (n_rep as int)) * s[2] + p) * s[3]
                    + c]
        }),
{
    let s = tensor_shape(x);
    let out = seq![s[0], (s[1] * n_rep) as usize, s[2], s[3]];
    assert forall|i: int, g: int, p: int, c: int|
        0 <= i < s[0] && 0 <= g < s[1] * n_rep && 0 <= p < s[2] && 0 <= c < s[3] implies #[trigger] tensor_elements(y)[((i * (s[1] * n_rep) + g) * s[2] + p) * s[3] + c]
        == tensor_elements(x)[((i * s[1] + g / (n_rep as int)) * s[2] + p) * s[3] + c] by {
        assert(out[1] == s[1] * n_rep);
        assert(tensor_elements(y)[index4(out, i, g, p, c)] == tensor_elements(x)[index4(
            s,
            i,
            g / (n_rep as int),
            p,
            c,
        )]);
    }
}

/// `repeat_kv`, for any tensor: when a product of axis sizes that the
/// repetition takes would not fit in a `usize`, the result is `TooLarge`;
/// otherwise it is what `repeat_kv` returns.
pub fn try_repeat_kv(x: &candle_core::Tensor, n_rep: usize) -> (r: Result<
    candle_core::Tensor,
    TensorError,
>)
    ensures
        repeat_kv_fits(*x, n_rep) ==> repeat_kv_result(*x, n_rep, r),
        !repeat_kv_fits(*x, n_rep) ==> r matches Err(TensorError::TooLarge),
{
    if n_rep != 1 {
        let dims = tensor_dims(x);
        if dims.len() == 4 {
            if dims[1].checked_mul(n_rep).is_none() {
                return Err(TensorError::TooLarge);
            }
            let expanded = vec![dims[0], dims[1], n_rep, dims[2], dims[3]];
            if !shape_counts_fit(&expanded) {
                return Err(TensorError::TooLarge);
            }
            assert(expanded@ =~= seq![dims@[0], dims@[1], n_rep, dims@[2], dims@[3]]);
        }
    }
    repeat_kv(x, n_rep)
}

} // verus!
