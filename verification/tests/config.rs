use qwen_rust::attention::AttentionDims;
use qwen_rust::config::ModelConfig;

fn smoke_config() -> ModelConfig {
    ModelConfig {
        d_model: 384,
        n_heads: 8,
        n_kv_heads: 4,
        n_layers: 6,
        d_ff: 1536,
        max_seq_len: 512,
        attention_bias: false,
        vocab_size: 49152,
    }
}

#[test]
fn head_width_and_groups() {
    let cfg = smoke_config();
    assert_eq!(cfg.d_k(), 48);
    assert_eq!(cfg.n_kv_groups(), 2);
}

#[test]
fn head_width_rounds_down() {
    let mut cfg = smoke_config();
    cfg.d_model = 100;
    cfg.n_heads = 3;
    cfg.n_kv_heads = 2;
    assert_eq!(cfg.d_k(), 33);
    assert_eq!(cfg.n_kv_groups(), 1);
}

#[test]
fn attention_projection_widths() {
    let dims = AttentionDims::new(&smoke_config());
    assert_eq!(dims.n_heads, 8);
    assert_eq!(dims.n_kv_heads, 4);
    assert_eq!(dims.n_kv_groups, 2);
    assert_eq!(dims.d_k, 48);
    assert_eq!(dims.q_dim, 384);
    assert_eq!(dims.kv_dim, 192);
    // The repeated key/value heads match the query heads.
    assert_eq!(dims.n_kv_heads * dims.n_kv_groups, dims.n_heads);
}

#[test]
fn heads_narrower_than_the_model_when_not_dividing() {
    let mut cfg = smoke_config();
    cfg.d_model = 100;
    cfg.n_heads = 3;
    cfg.n_kv_heads = 3;
    let dims = AttentionDims::new(&cfg);
    assert_eq!(dims.d_k, 33);
    assert_eq!(dims.q_dim, 99);
    assert_eq!(dims.kv_dim, 99);
    assert_eq!(dims.n_kv_groups, 1);
}
