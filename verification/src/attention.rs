//! The integer structure of grouped-query attention: the widths of the
//! projections, and the causal mask.
use vstd::prelude::*;
use crate::config::ModelConfig;

verus! {

/// The sizes of one attention layer, derived from the model configuration.
pub struct AttentionDims {
    /// Number of query heads.
    pub n_heads: usize,
    /// Number of key/value heads.
    pub n_kv_heads: usize,
    /// Number of query heads that share one key/value head.
    pub n_kv_groups: usize,
    /// Width of one head.
    pub d_k: usize,
    /// Output width of the query projection: `n_heads * d_k`.
    pub q_dim: usize,
    /// Output width of the key and of the value projection: `n_kv_heads * d_k`.
    pub kv_dim: usize,
}

impl AttentionDims {
    /// The sizes of the attention layers of a model of configuration `cfg`.
    /// `cfg` needs at least one query head and one key/value head, and a
    /// key/value projection width that fits in a `usize`.
    pub fn new(cfg: &ModelConfig) -> (dims: Self)
        requires
            cfg.n_heads > 0,
            cfg.n_kv_heads > 0,
            cfg.n_kv_heads * cfg.spec_d_k() <= usize::MAX,
        ensures
            dims.n_heads == cfg.n_heads,
            dims.n_kv_heads == cfg.n_kv_heads,
            dims.n_kv_groups == cfg.spec_n_kv_groups(),
            dims.d_k == cfg.spec_d_k(),
            dims.q_dim == cfg.n_heads * cfg.spec_d_k(),
            dims.kv_dim == cfg.n_kv_heads * cfg.spec_d_k(),
            dims.n_kv_groups == cfg.n_heads / cfg.n_kv_heads,
            dims.d_k == cfg.d_model / cfg.n_heads,
            dims.q_dim == cfg.n_heads * (cfg.d_model / cfg.n_heads),
            dims.kv_dim == cfg.n_kv_heads * (cfg.d_model / cfg.n_heads),
    {
        let d_k = cfg.d_k();
        proof {
            crate::config::lemma_heads_fill_model_width(cfg);
        }
        AttentionDims {
            n_heads: cfg.n_heads,
            n_kv_heads: cfg.n_kv_heads,
            n_kv_groups: cfg.n_kv_groups(),
            d_k,
            q_dim: cfg.n_heads * d_k,
            kv_dim: cfg.n_kv_heads * d_k,
        }
    }
}

/// Whether, in a causal mask, query position `i` is kept from seeing key
/// position `j`: exactly when `j` comes after `i`.
pub open spec fn is_masked(i: int, j: int) -> bool {
    j > i
}

/// A query position is kept from seeing exactly the key positions after
/// it: every earlier position, however far back, stays visible.
pub proof fn lemma_masked_exactly_later_keys(i: int, j: int)
    ensures
        is_masked(i, j) <==> j > i,
        j <= i ==> !is_masked(i, j),
{
}

/// The causal mask of a sequence of `t` positions, as a `t` by `t` matrix in
/// row-major order: the entry at row `i`, column `j` is `masked` when key
/// position `j` comes after query position `i`, and `open` otherwise.
pub fn causal_mask_values<T: Copy>(t: usize, masked: T, open: T) -> (m: Vec<T>)
    requires
        t * t <= usize::MAX,
    ensures
        m@.len() == t * t,
        forall|i: int, j: int|
            0 <= i < t && 0 <= j < t ==> #[trigger] m@[i * t + j] == if is_masked(i, j) {
                masked
            } else {
                open
            },
        forall|i: int, j: int|
            0 <= i < t && 0 <= j < t ==> #[trigger] m@[i * t + j] == if j > i {
                masked
            } else {
                open
            },
{
    let mut m: Vec<T> = Vec::new();
    let mut i: usize = 0;
    while i < t
        invariant
            i <= t,
            t * t <= usize::MAX,
            m@.len() == i * t,
            forall|a: int, b: int|
                0 <= a < i && 0 <= b < t ==> #[trigger] m@[a * t + b] == if is_masked(a, b) {
                    masked
                } else {
                    open
                },
        decreases t - i,
    {
        let ghost row_start = m@.len();
        let mut j: usize = 0;
        while j < t
            invariant
                i < t,
                j <= t,
                row_start == i * t,
                m@.len() == row_start + j,
                forall|a: int, b: int|
                    0 <= a < i && 0 <= b < t ==> #[trigger] m@[a * t + b] == if is_masked(a, b) {
                        masked
                    } else {
                        open
                    },
                forall|b: int|
                    0 <= b < j ==> #[trigger] m@[i * t + b] == if is_masked(i as int, b) {
                        masked
                    } else {
                        open
                    },
            decreases t - j,
        {
            if j > i {
                m.push(masked);
            } else {
                m.push(open);
            }
            proof {
                assert forall|a: int, b: int| 0 <= a < i && 0 <= b < t implies #[trigger] m@[a
                    * t + b] == if is_masked(a, b) {
                    masked
                } else {
                    open
                } by {
                    assert(a * t + b < i * t) by (nonlinear_arith)
                        requires
                            0 <= a < i,
                            0 <= b < t,
                    ;
                }
            }
            j = j + 1;
        }
        proof {
            assert((i + 1) * t == i * t + t) by (nonlinear_arith);
            assert forall|a: int, b: int| 0 <= a < i + 1 && 0 <= b < t implies #[trigger] m@[a
                * t + b] == if is_masked(a, b) {
                masked
            } else {
                open
            } by {
                if a == i {
                    assert(m@[i * t + b] == if is_masked(i as int, b) {
                        masked
                    } else {
                        open
                    });
                }
            }
            assert((i + 1) * t <= t * t) by (nonlinear_arith)
                requires
                    i < t,
            ;
        }
        i = i + 1;
    }
    assert(m@.len() == t * t);
    m
}

} // verus!
