//! The architecture's integer hyperparameters.
use vstd::prelude::*;

verus! {

/// The sizes that fix the shape of the model.  (The normalisation epsilon
/// and the dropout rate are floating-point numbers and are held by the
/// caller.)
pub struct ModelConfig {
    pub d_model: usize,
    pub n_heads: usize,
    pub n_kv_heads: usize,
    pub n_layers: usize,
    pub d_ff: usize,
    pub max_seq_len: usize,
    pub attention_bias: bool,
    pub vocab_size: usize,
}

impl ModelConfig {
    /// The width of one attention head: `d_model / n_heads`, rounded down.
    pub open spec fn spec_d_k(&self) -> int {
        self.d_model as int / self.n_heads as int
    }

    /// The number of query heads that share one key/value head:
    /// `n_heads / n_kv_heads`, rounded down.
    pub open spec fn spec_n_kv_groups(&self) -> int {
        self.n_heads as int / self.n_kv_heads as int
    }

    /// The width of one attention head.
    pub fn d_k(&self) -> (r: usize)
        requires
            self.n_heads > 0,
        ensures
            r == self.spec_d_k(),
            r == self.d_model / self.n_heads,
    {
        self.d_model / self.n_heads
    }

    /// The number of query heads that share one key/value head.
    pub fn n_kv_groups(&self) -> (r: usize)
        requires
            self.n_kv_heads > 0,
        ensures
            r == self.spec_n_kv_groups(),
            r == self.n_heads / self.n_kv_heads,
    {
        self.n_heads / self.n_kv_heads
    }
}

/// The heads never need more width than the model has: `n_heads * d_k` is
/// at most `d_model`, and equals it exactly when `n_heads` divides
/// `d_model`.  So the attention output, `n_heads * d_k` wide, feeds the
/// output projection (`d_model` wide) exactly when `n_heads` divides
/// `d_model`.
pub proof fn lemma_heads_fill_model_width(cfg: &ModelConfig)
    requires
        cfg.n_heads > 0,
    ensures
        cfg.n_heads * cfg.spec_d_k() <= cfg.d_model,
        (cfg.n_heads * cfg.spec_d_k() == cfg.d_model) <==> (cfg.d_model % cfg.n_heads == 0),
{
    let n = cfg.n_heads as int;
    let d = cfg.d_model as int;
    assert(d == n * (d / n) + d % n) by (nonlinear_arith)
        requires
            n > 0,
    ;
    assert(0 <= d % n < n) by (nonlinear_arith)
        requires
            n > 0,
    ;
}

/// Grouped-query attention: each key/value head serves `n_kv_groups` query
/// heads, so repeating every key/value head `n_kv_groups` times gives at
/// most `n_heads` heads, and exactly `n_heads` when `n_kv_heads` divides
/// `n_heads`.
pub proof fn lemma_kv_groups_cover_heads(cfg: &ModelConfig)
    requires
        cfg.n_kv_heads > 0,
    ensures
        cfg.n_kv_heads * cfg.spec_n_kv_groups() <= cfg.n_heads,
        (cfg.n_kv_heads * cfg.spec_n_kv_groups() == cfg.n_heads) <==> (cfg.n_heads
            % cfg.n_kv_heads == 0),
{
    let k = cfg.n_kv_heads as int;
    let h = cfg.n_heads as int;
    assert(h == k * (h / k) + h % k) by (nonlinear_arith)
        requires
            k > 0,
    ;
    assert(0 <= h % k < k) by (nonlinear_arith)
        requires
            k > 0,
    ;
}

} // verus!
