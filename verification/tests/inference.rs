use candle_core::Device;
use qwen_rust::inference::{nucleus_cutoff, top_k_threshold_rank, Generation};

#[test]
fn stops_right_after_the_end_of_sequence_token() {
    let mut g = Generation::new(vec![1, 2], 10, 0);
    assert!(!g.is_finished());
    g.record(7);
    assert!(!g.is_finished());
    assert_eq!(g.tokens(), &vec![1, 2, 7]);
    g.record(0);
    assert!(g.is_finished());
    assert_eq!(g.into_tokens(), vec![1, 2, 7, 0]);
}

#[test]
fn stops_after_max_length_new_tokens() {
    let mut g = Generation::new(vec![5], 3, 99);
    let mut steps = 0;
    while !g.is_finished() {
        g.record(4);
        steps += 1;
    }
    assert_eq!(steps, 3);
    assert_eq!(g.into_tokens(), vec![5, 4, 4, 4]);
}

#[test]
fn no_step_when_max_length_is_zero() {
    let g = Generation::new(vec![3, 4], 0, 0);
    assert!(g.is_finished());
    assert_eq!(g.into_tokens(), vec![3, 4]);
}

#[test]
fn end_of_sequence_as_last_allowed_token() {
    let mut g = Generation::new(vec![], 2, 1);
    g.record(5);
    g.record(1);
    assert!(g.is_finished());
    assert_eq!(g.into_tokens(), vec![5, 1]);
}

#[test]
fn input_tensor_is_the_sequence_as_a_batch_of_one() {
    let mut g = Generation::new(vec![8, 9], 4, 0);
    g.record(6);
    let t = g.input_tensor(&Device::Cpu).unwrap();
    assert_eq!(t.dims(), &[1, 3]);
    assert_eq!(t.to_vec2::<u32>().unwrap(), vec![vec![8u32, 9, 6]]);
}

#[test]
fn top_k_applies_only_between_zero_and_the_vocabulary_size() {
    assert_eq!(top_k_threshold_rank(0, 10), None);
    assert_eq!(top_k_threshold_rank(1, 10), Some(0));
    assert_eq!(top_k_threshold_rank(9, 10), Some(8));
    assert_eq!(top_k_threshold_rank(10, 10), None);
    assert_eq!(top_k_threshold_rank(50, 10), None);
}

#[test]
fn nucleus_keeps_up_to_the_first_token_past_top_p() {
    assert_eq!(nucleus_cutoff(&vec![false, false, true, true]), 3);
    assert_eq!(nucleus_cutoff(&vec![true, true]), 1);
    assert_eq!(nucleus_cutoff(&vec![false, false]), 2);
    assert_eq!(nucleus_cutoff(&vec![]), 0);
}
