//! The layout of the rotary position tables.
//!
//! For heads of width `head_dim` the tables have `head_dim / 2` columns, one
//! per rotated pair of features.  The first `head_dim / 4` columns turn with
//! angular frequency `(1/10000)^e`, for exponents `e` evenly spaced from 0 to
//! 1; the remaining columns have frequency 0 and do not turn.
//!
//! `Rotary` holds the cosine and sine tables, of shape
//! `(max_seq_len, head_dim / 2)`, and rotates queries and keys with them.
use vstd::prelude::*;
use crate::tensor::{
    agree_except,
    broadcast_compatible,
    broadcast_index,
    counts_fit,
    elem_add,
    elem_count,
    elem_mul,
    elem_sub,
    in_bounds4,
    index4,
    is_float_dtype,
    is_nan_bits,
    same_or_both_nan,
    tensor_is_float,
    tensor_same_dtype,
    lemma_nonzero_count_monotone,
    shape_counts_fit,
    tensor_add,
    tensor_broadcast_mul,
    tensor_cat2,
    tensor_dims,
    tensor_dtype,
    tensor_elements,
    tensor_narrow,
    tensor_on_cpu,
    tensor_reshape4,
    tensor_shape,
    tensor_sub,
    TensorError,
};

verus! {

/// The integer layout of the rotary tables for heads of width `head_dim`.
#[derive(PartialEq, Eq, Structural, Clone, Copy, Debug)]
pub struct RotaryLayout {
    /// Width of a head.
    pub head_dim: usize,
    /// Number of columns with a nonzero frequency: `head_dim / 4`.
    pub n_freqs: usize,
    /// Number of columns of the tables: `head_dim / 2`.
    pub n_cols: usize,
    /// The exponent of column `i < n_freqs` is `i / exponent_den`:
    /// `max(max(n_freqs, 1) - 1, 1)`.
    pub exponent_den: usize,
}

/// The layout for heads of width `head_dim`.
pub open spec fn rotary_layout(head_dim: usize) -> RotaryLayout {
    RotaryLayout {
        head_dim,
        n_freqs: head_dim / 4,
        n_cols: head_dim / 2,
        exponent_den: if head_dim / 4 <= 2 {
            1
        } else {
            (head_dim / 4 - 1) as usize
        },
    }
}

impl RotaryLayout {
    /// The layout for heads of width `head_dim`.
    pub fn new(head_dim: usize) -> (l: Self)
        ensures
            l == rotary_layout(head_dim),
            l.head_dim == head_dim,
            l.n_freqs == head_dim / 4,
            l.n_cols == head_dim / 2,
            head_dim / 4 >= 2 ==> l.exponent_den == head_dim / 4 - 1,
            head_dim / 4 < 2 ==> l.exponent_den == 1,
    {
        let n_freqs = head_dim / 4;
        let at_least_one = if n_freqs > 1 {
            n_freqs
        } else {
            1
        };
        let exponent_den = if at_least_one - 1 > 1 {
            at_least_one - 1
        } else {
            1
        };
        RotaryLayout { head_dim, n_freqs, n_cols: head_dim / 2, exponent_den }
    }

    /// The number of zero-frequency columns that pad the tables.
    pub fn n_padding(&self) -> (n: usize)
        requires
            self.n_freqs <= self.n_cols,
        ensures
            n == self.n_cols - self.n_freqs,
    {
        self.n_cols - self.n_freqs
    }
}

/// The layout spelled out: `head_dim / 4` rotating columns, `head_dim / 2`
/// columns in all (so `head_dim / 2 - head_dim / 4` padding columns), and
/// exponent denominator `max(head_dim / 4 - 1, 1)`.
pub proof fn lemma_rotary_layout_spelled_out(head_dim: usize)
    ensures
        rotary_layout(head_dim).head_dim == head_dim,
        rotary_layout(head_dim).n_freqs == head_dim / 4,
        rotary_layout(head_dim).n_cols == head_dim / 2,
        rotary_layout(head_dim).n_cols - rotary_layout(head_dim).n_freqs == head_dim / 2
            - head_dim / 4,
        head_dim / 4 >= 2 ==> rotary_layout(head_dim).exponent_den == head_dim / 4 - 1,
        head_dim / 4 < 2 ==> rotary_layout(head_dim).exponent_den == 1,
{
}

/// The frequency columns fit in the tables, the exponent denominator is
/// never 0, and the exponents `i / exponent_den` of the frequency columns
/// `i < n_freqs` run from 0 up to at most 1 (the largest index is at most
/// the denominator), reaching 1 at the last column when there are at least
/// two frequency columns.
pub proof fn lemma_rotary_layout(head_dim: usize)
    ensures
        ({
            let l = rotary_layout(head_dim);
            &&& l.n_freqs <= l.n_cols
            &&& l.exponent_den >= 1
            &&& l.n_freqs > 0 ==> l.n_freqs - 1 <= l.exponent_den
            &&& l.n_freqs >= 2 ==> l.n_freqs - 1 == l.exponent_den
        }),
{
}

/// Rotary position embedding: the cosine and sine of the angle of each
/// position and column.
pub struct Rotary {
    cos: candle_core::Tensor,
    sin: candle_core::Tensor,
}

/// Whether a table of shape `table` serves a sequence of `t` positions with
/// heads of width `d`: it has two axes, at least `t` rows and `d / 2`
/// columns.
pub open spec fn table_fits(table: Seq<usize>, t: usize, d: usize) -> bool {
    &&& table.len() == 2
    &&& t <= table[0]
    &&& table[1] == d / 2
}

impl Rotary {
    /// The cosine table.
    pub closed spec fn cos_table(&self) -> candle_core::Tensor {
        self.cos
    }

    /// The sine table.
    pub closed spec fn sin_table(&self) -> candle_core::Tensor {
        self.sin
    }

    /// The shape of the cosine table.
    pub open spec fn cos_shape(&self) -> Seq<usize> {
        tensor_shape(self.cos_table())
    }

    /// The shape of the sine table.
    pub open spec fn sin_shape(&self) -> Seq<usize> {
        tensor_shape(self.sin_table())
    }

    /// A rotary embedding with the given tables, each with one row per
    /// position and one column per rotated pair of features.
    pub fn from_tables(cos: candle_core::Tensor, sin: candle_core::Tensor) -> (r: Self)
        ensures
            r.cos_table() == cos,
            r.sin_table() == sin,
    {
        Rotary { cos, sin }
    }

    /// Whether the products of axis sizes that `forward(x)` takes fit in a
    /// `usize`.
    pub open spec fn forward_fits(&self, x: candle_core::Tensor) -> bool {
        &&& counts_fit(tensor_shape(x))
        &&& counts_fit(self.cos_shape())
        &&& counts_fit(self.sin_shape())
        &&& tensor_shape(x).len() == 4 ==> counts_fit(
            seq![1usize, tensor_shape(x)[1], 1usize, (tensor_shape(x)[3] / 2) as usize],
        )
    }

    /// Whether `forward(x)` does its arithmetic on floating-point elements:
    /// with a nonempty half of `x` whose element type is that of the cosine
    /// table, that type is a floating-point one (integer elements could
    /// overflow).
    pub open spec fn forward_float(&self, x: candle_core::Tensor) -> bool {
        let s = tensor_shape(x);
        s.len() == 4 && elem_count(seq![s[0], s[1], s[2], (s[3] / 2) as usize]) != 0
            && tensor_dtype(self.cos_table()) == tensor_dtype(x) ==> is_float_dtype(
            tensor_dtype(x),
        )
    }

    /// What `forward(x)` returns.  A tensor without four axes gets `Rank`,
    /// and only such a tensor does.  A sequence longer than a table is
    /// refused, and so is a nonempty sequence when a table of two axes does
    /// not have `head_dim / 2` columns.  With tables that fit, everything on
    /// the CPU and one element type, the rotation succeeds.  A result has
    /// shape `(batch, seq_len, n_heads, 2 * (head_dim / 2))` and the device
    /// and element type of `x`, and with tables of two axes it is `x`
    /// rotated (`rotated`).
    pub open spec fn forward_result(
        &self,
        x: candle_core::Tensor,
        r: Result<candle_core::Tensor, TensorError>,
    ) -> bool {
        let s = tensor_shape(x);
        &&& s.len() != 4 ==> (r matches Err(TensorError::Rank { expected, found }) && expected
            == 4 && found == s.len())
        &&& r matches Err(TensorError::Rank { .. }) ==> s.len() != 4
        &&& !(r matches Err(TensorError::TooLarge))
        &&& !(r matches Err(TensorError::IntegerElements))
        &&& s.len() == 4 && (self.cos_shape().len() == 0 || self.cos_shape()[0] < s[1]
            || self.sin_shape().len() == 0 || self.sin_shape()[0] < s[1]) ==> r is Err
        &&& s.len() == 4 && s[1] >= 1 && ((self.cos_shape().len() == 2 && self.cos_shape()[1] != s[3]
            / 2) || (self.sin_shape().len() == 2 && self.sin_shape()[1] != s[3] / 2)) ==> r is Err
        &&& ({
            &&& s.len() == 4
            &&& table_fits(self.cos_shape(), s[1], s[3])
            &&& table_fits(self.sin_shape(), s[1], s[3])
            &&& tensor_on_cpu(x)
            &&& tensor_on_cpu(self.cos_table())
            &&& tensor_on_cpu(self.sin_table())
            &&& tensor_dtype(self.cos_table()) == tensor_dtype(x)
            &&& tensor_dtype(self.sin_table()) == tensor_dtype(x)
        }) ==> r is Ok
        &&& s.len() == 4 ==> (r matches Ok(y) ==> {
            &&& tensor_shape(y) == seq![s[0], s[1], s[2], (2 * (s[3] / 2)) as usize]
            &&& tensor_on_cpu(y) == tensor_on_cpu(x)
            &&& tensor_dtype(y) == tensor_dtype(x)
        })
        &&& s.len() == 4 && self.cos_shape().len() == 2 && self.sin_shape().len() == 2 ==> (r matches Ok(
            y,
        ) ==> self.rotated(x, y))
    }

    /// Rotates `x`, of shape `(batch, seq_len, n_heads, head_dim)`: the first
    /// half of the features of each head is paired with the second half,
    /// and each pair at position `p` turns by the angle of row `p` of the
    /// tables (`rotated_at`).  The result has shape
    /// `(batch, seq_len, n_heads, 2 * (head_dim / 2))`.  See
    /// `forward_result` for when it succeeds and when it is refused.
    pub fn forward(&self, x: &candle_core::Tensor) -> (r: Result<candle_core::Tensor, TensorError>)
        requires
            self.forward_fits(*x),
            self.forward_float(*x),
        ensures
            self.forward_result(*x, r),
            tensor_shape(*x).len() == 4 && self.cos_shape().len() == 2 && self.sin_shape().len()
                == 2 ==> (r matches Ok(y) ==> (forall|i: int, p: int, hh: int, c: int|
                #![trigger tensor_elements(y)[((i * tensor_shape(*x)[1] + p) * tensor_shape(*x)[2] + hh) * (2 * (tensor_shape(*x)[3] / 2)) + c]]
                0 <= i < tensor_shape(*x)[0] && 0 <= p < tensor_shape(*x)[1] && 0 <= hh < tensor_shape(*x)[2] && 0 <= c < tensor_shape(*x)[3] / 2 ==> {
                        let s = tensor_shape(*x);
                        let half = s[3] / 2;
                        let dt = tensor_dtype(*x);
                        let row = (i * s[1] + p) * s[2] + hh;
                        let x1 = tensor_elements(*x)[row * s[3] + c];
                        let x2 = tensor_elements(*x)[row * s[3] + half + c];
                        let cos = tensor_elements(self.cos_table())[p * half + c];
                        let sin = tensor_elements(self.sin_table())[p * half + c];
                        &&& same_or_both_nan(
                            dt,
                            tensor_elements(y)[row * (2 * half) + c],
                            elem_add(dt, elem_mul(dt, x1, cos), elem_mul(dt, x2, sin)),
                        )
                        &&& same_or_both_nan(
                            dt,
                            tensor_elements(y)[row * (2 * half) + half + c],
                            elem_sub(dt, elem_mul(dt, x2, cos), elem_mul(dt, x1, sin)),
                        )
                    })),
    {
        let dims = tensor_dims(x);
        if dims.len() != 4 {
            return Err(TensorError::Rank { expected: 4, found: dims.len() });
        }
        let b = dims[0];
        let t = dims[1];
        let h = dims[2];
        let d = dims[3];
        let half = d / 2;

        // slice cos/sin to seq_len, reshape for broadcast: (1, t, 1, half)
        let cos = match self.table_rows(&self.cos, t, half) {
            Ok(c) => c,
            Err(e) => return Err(e),
        };
        let sin = match self.table_rows(&self.sin, t, half) {
            Ok(c) => c,
            Err(e) => return Err(e),
        };

        let x1 = match tensor_narrow(x, 3, 0, half) {
            Ok(v) => v,
            Err(e) => return Err(TensorError::Backend(e)),
        };
        let x2 = match tensor_narrow(x, 3, half, half) {
            Ok(v) => v,
            Err(e) => return Err(TensorError::Backend(e)),
        };
        let ghost half_shape = seq![b, t, h, half];
        proof {
            assert(tensor_shape(x1) =~= half_shape);
            assert(tensor_shape(x2) =~= half_shape);
            assert(broadcast_compatible(seq![1usize, t, 1usize, half], half_shape));
            lemma_nonzero_count_monotone(half_shape, tensor_shape(*x));
        }

        let x1_cos = match tensor_broadcast_mul(&x1, &cos) {
            Ok(v) => v,
            Err(e) => return Err(TensorError::Backend(e)),
        };
        let x2_sin = match tensor_broadcast_mul(&x2, &sin) {
            Ok(v) => v,
            Err(e) => return Err(TensorError::Backend(e)),
        };
        let y1 = match tensor_add(&x1_cos, &x2_sin) {
            Ok(v) => v,
            Err(e) => return Err(TensorError::Backend(e)),
        };
        let x2_cos = match tensor_broadcast_mul(&x2, &cos) {
            Ok(v) => v,
            Err(e) => return Err(TensorError::Backend(e)),
        };
        let x1_sin = match tensor_broadcast_mul(&x1, &sin) {
            Ok(v) => v,
            Err(e) => return Err(TensorError::Backend(e)),
        };
        let y2 = match tensor_sub(&x2_cos, &x1_sin) {
            Ok(v) => v,
            Err(e) => return Err(TensorError::Backend(e)),
        };
        proof {
            let out = seq![b, t, h, (half + half) as usize];
            assert(tensor_shape(y1).update(3, (half + half) as usize) =~= out);
            lemma_nonzero_count_monotone(out, tensor_shape(*x));
        }
        let y = match tensor_cat2(&y1, &y2, 3) {
            Ok(v) => v,
            Err(e) => return Err(TensorError::Backend(e)),
        };
        proof {
            if self.cos_shape().len() == 2 && self.sin_shape().len() == 2 {
                let xs = tensor_shape(*x);
                let ys = tensor_shape(y);
                let dt = tensor_dtype(*x);
                let rs = seq![1usize, t, 1usize, half];
                assert(xs =~= seq![b, t, h, d]);
                assert(ys =~= seq![b, t, h, (half + half) as usize]);
                assert forall|i: int, p: int, hh: int, c: int|
                    0 <= i < b && 0 <= p < t && 0 <= hh < h && 0 <= c < half implies #[trigger] self.rotated_at(
                    *x,
                    y,
                    i,
                    p,
                    hh,
                    c,
                ) by {
                    assert(in_bounds4(half_shape, i, p, hh, c));
                    assert(in_bounds4(ys, i, p, hh, c));
                    assert(in_bounds4(ys, i, p, hh, half + c));
                    assert(broadcast_index(1usize, i) == 0);
                    assert(broadcast_index(t, p) == p);
                    assert(broadcast_index(1usize, hh) == 0);
                    assert(broadcast_index(half, c) == c);
                    let x1e = tensor_elements(x1)[index4(half_shape, i, p, hh, c)];
                    let x2e = tensor_elements(x2)[index4(half_shape, i, p, hh, c)];
                    assert(x1e == tensor_elements(*x)[index4(xs, i, p, hh, 0 + c)]);
                    assert(x2e == tensor_elements(*x)[index4(xs, i, p, hh, half + c)]);
                    let ce = tensor_elements(cos)[index4(rs, 0, p, 0, c)];
                    let se = tensor_elements(sin)[index4(rs, 0, p, 0, c)];
                    assert(ce == tensor_elements(self.cos_table())[p * half + c]);
                    assert(se == tensor_elements(self.sin_table())[p * half + c]);
                    let hi = index4(half_shape, i, p, hh, c);
                    let m1 = tensor_elements(x1_cos)[hi];
                    let m2 = tensor_elements(x2_sin)[hi];
                    let m3 = tensor_elements(x2_cos)[hi];
                    let m4 = tensor_elements(x1_sin)[hi];
                    assert(same_or_both_nan(dt, m1, elem_mul(dt, x1e, ce)));
                    assert(same_or_both_nan(dt, m2, elem_mul(dt, x2e, se)));
                    assert(same_or_both_nan(dt, m3, elem_mul(dt, x2e, ce)));
                    assert(same_or_both_nan(dt, m4, elem_mul(dt, x1e, se)));
                    assert(same_or_both_nan(dt, tensor_elements(y1)[hi], elem_add(dt, m1, m2)));
                    assert(same_or_both_nan(dt, tensor_elements(y2)[hi], elem_sub(dt, m3, m4)));
                    let p1 = elem_mul(dt, x1e, ce);
                    let p2 = elem_mul(dt, x2e, se);
                    let p3 = elem_mul(dt, x2e, ce);
                    let p4 = elem_mul(dt, x1e, se);
                    assert((is_nan_bits(dt, m1) || is_nan_bits(dt, m2)) ==> is_nan_bits(
                        dt,
                        elem_add(dt, m1, m2),
                    ));
                    assert((is_nan_bits(dt, p1) || is_nan_bits(dt, p2)) ==> is_nan_bits(
                        dt,
                        elem_add(dt, p1, p2),
                    ));
                    assert((is_nan_bits(dt, m3) || is_nan_bits(dt, m4)) ==> is_nan_bits(
                        dt,
                        elem_sub(dt, m3, m4),
                    ));
                    assert((is_nan_bits(dt, p3) || is_nan_bits(dt, p4)) ==> is_nan_bits(
                        dt,
                        elem_sub(dt, p3, p4),
                    ));
                    assert(same_or_both_nan(dt, tensor_elements(y1)[hi], elem_add(dt, p1, p2)));
                    assert(same_or_both_nan(dt, tensor_elements(y2)[hi], elem_sub(dt, p3, p4)));
                    assert(tensor_elements(y)[index4(ys, i, p, hh, c)] == tensor_elements(
                        y1,
                    )[index4(half_shape, i, p, hh, c)]);
                    assert(tensor_elements(y)[index4(ys, i, p, hh, half + c)] == tensor_elements(
                        y2,
                    )[index4(half_shape, i, p, hh, (half + c) - half)]);
                }
                assert(self.rotated(*x, y));
                self.lemma_rotation_spelled_out(*x, y);
            }
        }
        Ok(y)
    }

    /// Element `(i, p, hh, c)` and element `(i, p, hh, half + c)` of `y` are
    /// the rotation of the pair of features `c` and `half + c` of `x` at
    /// position `p`, head `hh` of batch entry `i`:
    /// `x1 * cos + x2 * sin` and `x2 * cos - x1 * sin`, with `cos` and `sin`
    /// taken from row `p`, column `c` of the tables, computed in the element
    /// type of `x` (up to which NaN, where the result is a NaN).
    pub open spec fn rotated_at(
        &self,
        x: candle_core::Tensor,
        y: candle_core::Tensor,
        i: int,
        p: int,
        hh: int,
        c: int,
    ) -> bool {
        let s = tensor_shape(x);
        let half = s[3] / 2;
        let ys = seq![s[0], s[1], s[2], (2 * half) as usize];
        let dt = tensor_dtype(x);
        let x1 = tensor_elements(x)[index4(s, i, p, hh, c)];
        let x2 = tensor_elements(x)[index4(s, i, p, hh, half + c)];
        let cos = tensor_elements(self.cos_table())[p * half + c];
        let sin = tensor_elements(self.sin_table())[p * half + c];
        &&& same_or_both_nan(
            dt,
            tensor_elements(y)[index4(ys, i, p, hh, c)],
            elem_add(dt, elem_mul(dt, x1, cos), elem_mul(dt, x2, sin)),
        )
        &&& same_or_both_nan(
            dt,
            tensor_elements(y)[index4(ys, i, p, hh, half + c)],
            elem_sub(dt, elem_mul(dt, x2, cos), elem_mul(dt, x1, sin)),
        )
    }

    /// The rotation, spelled out: for every batch entry `i`, position `p`,
    /// head `hh` and column `c < head_dim / 2`, the output pair at features
    /// `c` and `half + c` is `x1 * cos + x2 * sin` and `x2 * cos - x1 * sin`,
    /// where `x1`, `x2` are the input features `c` and `half + c` and `cos`,
    /// `sin` are read from row `p` of the tables (element `p * half + c`),
    /// computed in the element type of `x` (up to which NaN, where the result
    /// is a NaN).  Different positions read different table rows.
    pub proof fn lemma_rotation_spelled_out(&self, x: candle_core::Tensor, y: candle_core::Tensor)
        requires
            self.rotated(x, y),
        ensures
            (forall|i: int, p: int, hh: int, c: int|
                #![trigger tensor_elements(y)[((i * tensor_shape(x)[1] + p) * tensor_shape(x)[2] + hh) * (2 * (tensor_shape(x)[3] / 2)) + c]]
                0 <= i < tensor_shape(x)[0] && 0 <= p < tensor_shape(x)[1] && 0 <= hh < tensor_shape(x)[2] && 0 <= c < tensor_shape(x)[3] / 2 ==> {
                        let s = tensor_shape(x);
                        let half = s[3] / 2;
                        let dt = tensor_dtype(x);
                        let row = (i * s[1] + p) * s[2] + hh;
                        let x1 = tensor_elements(x)[row * s[3] + c];
                        let x2 = tensor_elements(x)[row * s[3] + half + c];
                        let cos = tensor_elements(self.cos_table())[p * half + c];
                        let sin = tensor_elements(self.sin_table())[p * half + c];
                        &&& same_or_both_nan(
                            dt,
                            tensor_elements(y)[row * (2 * half) + c],
                            elem_add(dt, elem_mul(dt, x1, cos), elem_mul(dt, x2, sin)),
                        )
                        &&& same_or_both_nan(
                            dt,
                            tensor_elements(y)[row * (2 * half) + half + c],
                            elem_sub(dt, elem_mul(dt, x2, cos), elem_mul(dt, x1, sin)),
                        )
                    }),
    {
        let s = tensor_shape(x);
        let half = s[3] / 2;
        let ys = seq![s[0], s[1], s[2], (2 * half) as usize];
        assert(ys[0] == s[0] && ys[1] == s[1] && ys[2] == s[2] && ys[3] == 2 * half);
        assert forall|i: int, p: int, hh: int, c: int|
            0 <= i < s[0] && 0 <= p < s[1] && 0 <= hh < s[2] && 0 <= c < half implies #[trigger] self.pair_rotated(
            x,
            y,
            i,
            p,
            hh,
            c,
        ) by {
            assert(self.rotated_at(x, y, i, p, hh, c));
            assert(index4(s, i, p, hh, c) == ((i * s[1] + p) * s[2] + hh) * s[3] + c);
            assert(index4(ys, i, p, hh, c) == ((i * s[1] + p) * s[2] + hh) * (2 * half) + c);
            assert(index4(ys, i, p, hh, half + c) == ((i * s[1] + p) * s[2] + hh) * (2 * half)
                + half + c);
        }
        assert forall|i: int, p: int, hh: int, c: int|
            #![trigger tensor_elements(y)[((i * tensor_shape(x)[1] + p) * tensor_shape(x)[2] + hh) * (2 * (tensor_shape(x)[3] / 2)) + c]]
            0 <= i < s[0] && 0 <= p < s[1] && 0 <= hh < s[2] && 0 <= c < half implies {
                        let s = tensor_shape(x);
                        let half = s[3] / 2;
                        let dt = tensor_dtype(x);
                        let row = (i * s[1] + p) * s[2] + hh;
                        let x1 = tensor_elements(x)[row * s[3] + c];
                        let x2 = tensor_elements(x)[row * s[3] + half + c];
                        let cos = tensor_elements(self.cos_table())[p * half + c];
                        let sin = tensor_elements(self.sin_table())[p * half + c];
                        &&& same_or_both_nan(
                            dt,
                            tensor_elements(y)[row * (2 * half) + c],
                            elem_add(dt, elem_mul(dt, x1, cos), elem_mul(dt, x2, sin)),
                        )
                        &&& same_or_both_nan(
                            dt,
                            tensor_elements(y)[row * (2 * half) + half + c],
                            elem_sub(dt, elem_mul(dt, x2, cos), elem_mul(dt, x1, sin)),
                        )
                    } by {
            assert(self.pair_rotated(x, y, i, p, hh, c));
        }
    }

    /// The pair of features `c` and `half + c` at batch entry `i`, position
    /// `p`, head `hh` of `y` is that of `x` rotated by row `p` of the tables.
    spec fn pair_rotated(
        &self,
        x: candle_core::Tensor,
        y: candle_core::Tensor,
        i: int,
        p: int,
        hh: int,
        c: int,
    ) -> bool {
        let s = tensor_shape(x);
        let half = s[3] / 2;
        let dt = tensor_dtype(x);
        let row = (i * s[1] + p) * s[2] + hh;
        let x1 = tensor_elements(x)[row * s[3] + c];
        let x2 = tensor_elements(x)[row * s[3] + half + c];
        let cos = tensor_elements(self.cos_table())[p * half + c];
        let sin = tensor_elements(self.sin_table())[p * half + c];
        &&& same_or_both_nan(
            dt,
            tensor_elements(y)[row * (2 * half) + c],
            elem_add(dt, elem_mul(dt, x1, cos), elem_mul(dt, x2, sin)),
        )
        &&& same_or_both_nan(
            dt,
            tensor_elements(y)[row * (2 * half) + half + c],
            elem_sub(dt, elem_mul(dt, x2, cos), elem_mul(dt, x1, sin)),
        )
    }

    /// `y` is `x` rotated: every pair of features at every index is turned
    /// as `rotated_at` says.
    pub open spec fn rotated(&self, x: candle_core::Tensor, y: candle_core::Tensor) -> bool {
        let s = tensor_shape(x);
        forall|i: int, p: int, hh: int, c: int|
            0 <= i < s[0] && 0 <= p < s[1] && 0 <= hh < s[2] && 0 <= c < s[3] / 2
                ==> #[trigger] self.rotated_at(x, y, i, p, hh, c)
    }

    /// `forward`, for any tensor: when a product of axis sizes that the
    /// rotation takes would not fit in a `usize`, the result is `TooLarge`;
    /// when it would multiply integer elements, `IntegerElements`; otherwise
    /// it is what `forward` returns.
    pub fn try_forward(&self, x: &candle_core::Tensor) -> (r: Result<
        candle_core::Tensor,
        TensorError,
    >)
        ensures
            self.forward_fits(*x) && self.forward_float(*x) ==> self.forward_result(*x, r),
            !self.forward_fits(*x) ==> r matches Err(TensorError::TooLarge),
            self.forward_fits(*x) && !self.forward_float(*x) ==> r matches Err(
                TensorError::IntegerElements,
            ),
    {
        let dims = tensor_dims(x);
        let cos_dims = tensor_dims(&self.cos);
        let sin_dims = tensor_dims(&self.sin);
        if !shape_counts_fit(&dims) || !shape_counts_fit(&cos_dims) || !shape_counts_fit(&sin_dims) {
            return Err(TensorError::TooLarge);
        }
        if dims.len() == 4 {
            let target = vec![1, dims[1], 1, dims[3] / 2];
            if !shape_counts_fit(&target) {
                return Err(TensorError::TooLarge);
            }
            assert(target@ =~= seq![1usize, dims@[1], 1usize, (dims@[3] / 2) as usize]);
            let half = dims[3] / 2;
            proof {
                lemma_count_4(dims@[0], dims@[1], dims@[2], half);
            }
            let nonempty = dims[0] != 0 && dims[1] != 0 && dims[2] != 0 && half != 0;
            if nonempty && tensor_same_dtype(&self.cos, x) && !tensor_is_float(x) {
                return Err(TensorError::IntegerElements);
            }
        }
        self.forward(x)
    }

    /// The first `t` rows of `table`, shaped `(1, t, 1, half)` for
    /// broadcasting over a batch of heads.
    fn table_rows(&self, table: &candle_core::Tensor, t: usize, half: usize) -> (r: Result<
        candle_core::Tensor,
        TensorError,
    >)
        requires
            counts_fit(tensor_shape(*table)),
            counts_fit(seq![1usize, t, 1usize, half]),
        ensures
            !(r matches Err(TensorError::Rank { .. })),
            !(r matches Err(TensorError::TooLarge)),
            !(r matches Err(TensorError::IntegerElements)),
            tensor_shape(*table).len() == 0 || tensor_shape(*table)[0] < t ==> r is Err,
            t >= 1 && tensor_shape(*table).len() == 2 && tensor_shape(*table)[1] != half ==> r is Err,
            tensor_shape(*table).len() == 2 && t <= tensor_shape(*table)[0] && tensor_shape(
                *table,
            )[1] == half && tensor_on_cpu(*table) ==> r is Ok,
            r matches Ok(u) ==> {
                &&& tensor_shape(u) == seq![1usize, t, 1usize, half]
                &&& tensor_on_cpu(u) == tensor_on_cpu(*table)
                &&& tensor_dtype(u) == tensor_dtype(*table)
                &&& tensor_shape(*table).len() == 2 ==> forall|p: int, c: int|
                    0 <= p < t && 0 <= c < half ==> #[trigger] tensor_elements(u)[index4(
                        tensor_shape(u),
                        0,
                        p,
                        0,
                        c,
                    )] == tensor_elements(*table)[p * half + c]
            },
    {
        let rows = match tensor_narrow(table, 0, 0, t) {
            Ok(c) => c,
            Err(e) => return Err(TensorError::Backend(e)),
        };
        proof {
            let ts = tensor_shape(*table);
            lemma_nonzero_count_monotone(ts.update(0, t), ts);
            if ts.len() == 2 {
                lemma_count_2_4(t, ts[1], half);
                assert(tensor_shape(rows) =~= seq![t, ts[1]]);
                assert(t >= 1 && ts[1] != half ==> t * ts[1] != t * half) by (nonlinear_arith);
            }
        }
        let u = match tensor_reshape4(&rows, (1, t, 1, half)) {
            Ok(c) => c,
            Err(e) => return Err(TensorError::Backend(e)),
        };
        proof {
            let ts = tensor_shape(*table);
            if ts.len() == 2 {
                let cols = ts[1];
                assert forall|p: int, c: int| 0 <= p < t && 0 <= c < half implies #[trigger] tensor_elements(
                    u,
                )[index4(tensor_shape(u), 0, p, 0, c)] == tensor_elements(*table)[p * half + c] by {
                    assert(cols == half) by (nonlinear_arith)
                        requires
                            t * cols == t * half,
                            0 <= p < t,
                    ;
                    assert(index4(seq![1usize, t, 1usize, half], 0, p, 0, c) == p * half + c)
                        by (nonlinear_arith);
                    assert(tensor_elements(rows)[p * cols + c] == tensor_elements(*table)[(0 + p)
                        * cols + c]);
                }
            }
        }
        Ok(u)
    }
}

/// The element count of a shape of four axes is zero exactly when an axis is.
proof fn lemma_count_4(a: usize, b: usize, c: usize, d: usize)
    ensures
        (elem_count(seq![a, b, c, d]) != 0) == (a != 0 && b != 0 && c != 0 && d != 0),
{
    reveal_with_fuel(elem_count, 5);
    assert(seq![a].drop_last() =~= Seq::<usize>::empty());
    assert(seq![a, b].drop_last() =~= seq![a]);
    assert(seq![a, b, c].drop_last() =~= seq![a, b]);
    assert(seq![a, b, c, d].drop_last() =~= seq![a, b, c]);
    assert((a * b * c * d != 0) == (a != 0 && b != 0 && c != 0 && d != 0)) by (nonlinear_arith);
}

/// The element counts of a table of `t` rows and `c` columns and of the
/// broadcast shape `(1, t, 1, half)`.
proof fn lemma_count_2_4(t: usize, c: usize, half: usize)
    ensures
        elem_count(seq![t, c]) == t * c,
        elem_count(seq![1usize, t, 1usize, half]) == t * half,
{
    reveal_with_fuel(elem_count, 5);
    assert(seq![t].drop_last() =~= Seq::<usize>::empty());
    assert(seq![t, c].drop_last() =~= seq![t]);
    assert(seq![1usize].drop_last() =~= Seq::<usize>::empty());
    assert(seq![1usize, t].drop_last() =~= seq![1usize]);
    assert(seq![1usize, t, 1usize].drop_last() =~= seq![1usize, t]);
    assert(seq![1usize, t, 1usize, half].drop_last() =~= seq![1usize, t, 1usize]);
    assert(1 * t * 1 * half == t * half) by (nonlinear_arith);
}

} // verus!
