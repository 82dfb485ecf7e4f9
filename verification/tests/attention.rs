use qwen_rust::attention::causal_mask_values;

#[test]
fn causal_mask_of_three_positions() {
    let m = causal_mask_values(3, 'x', '.');
    assert_eq!(m, vec!['.', 'x', 'x', '.', '.', 'x', '.', '.', '.']);
}

#[test]
fn causal_mask_with_attention_values() {
    let m = causal_mask_values(2, f32::NEG_INFINITY, 0.0f32);
    assert_eq!(m, vec![0.0, f32::NEG_INFINITY, 0.0, 0.0]);
}

#[test]
fn causal_mask_edge_sizes() {
    assert_eq!(causal_mask_values(0, 1u8, 0u8), Vec::<u8>::new());
    assert_eq!(causal_mask_values(1, 1u8, 0u8), vec![0u8]);
    let m = causal_mask_values(5, 1u8, 0u8);
    for i in 0..5 {
        for j in 0..5 {
            assert_eq!(m[i * 5 + j], if j > i { 1 } else { 0 });
        }
    }
}
