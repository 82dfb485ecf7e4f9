use candle_core::{Device, Tensor};
use qwen_rust::rope::Rotary;
use qwen_rust::rope::RotaryLayout;

#[test]
fn layout_of_the_smoke_model_heads() {
    let l = RotaryLayout::new(48);
    assert_eq!((l.head_dim, l.n_freqs, l.n_cols, l.exponent_den), (48, 12, 24, 11));
    assert_eq!(l.n_padding(), 12);
}

#[test]
fn layout_of_small_heads() {
    let l = RotaryLayout::new(8);
    assert_eq!((l.n_freqs, l.n_cols, l.exponent_den), (2, 4, 1));
    let l = RotaryLayout::new(4);
    assert_eq!((l.n_freqs, l.n_cols, l.exponent_den), (1, 2, 1));
    let l = RotaryLayout::new(2);
    assert_eq!((l.n_freqs, l.n_cols, l.exponent_den, l.n_padding()), (0, 1, 1, 1));
    let l = RotaryLayout::new(14);
    assert_eq!((l.n_freqs, l.n_cols, l.exponent_den, l.n_padding()), (3, 7, 2, 4));
}


fn tables(rows: usize, cols: usize, cos: f32, sin: f32) -> Rotary {
    let device = Device::Cpu;
    let c = Tensor::from_vec(vec![cos; rows * cols], (rows, cols), &device).unwrap();
    let s = Tensor::from_vec(vec![sin; rows * cols], (rows, cols), &device).unwrap();
    Rotary::from_tables(c, s)
}

#[test]
fn rotation_by_zero_keeps_the_input() {
    let rot = tables(4, 2, 1.0, 0.0);
    let x = Tensor::arange(0f32, 12f32, &Device::Cpu).unwrap().reshape((1, 3, 1, 4)).unwrap();
    let y = rot.forward(&x).unwrap();
    assert_eq!(y.dims(), &[1, 3, 1, 4]);
    assert_eq!(y.flatten_all().unwrap().to_vec1::<f32>().unwrap(), x.flatten_all().unwrap().to_vec1::<f32>().unwrap());
}

#[test]
fn rotation_by_a_quarter_turn_swaps_the_halves() {
    let rot = tables(2, 2, 0.0, 1.0);
    let x = Tensor::from_vec(vec![1f32, 2., 3., 4.], (1, 1, 1, 4), &Device::Cpu).unwrap();
    let y = rot.forward(&x).unwrap();
    // y1 = x1 * cos + x2 * sin = x2; y2 = x2 * cos - x1 * sin = -x1
    assert_eq!(y.flatten_all().unwrap().to_vec1::<f32>().unwrap(), vec![3., 4., -1., -2.]);
}

#[test]
fn odd_head_width_loses_its_last_feature() {
    let rot = tables(2, 2, 1.0, 0.0);
    let x = Tensor::arange(0f32, 5f32, &Device::Cpu).unwrap().reshape((1, 1, 1, 5)).unwrap();
    let y = rot.forward(&x).unwrap();
    assert_eq!(y.dims(), &[1, 1, 1, 4]);
}

#[test]
fn sequence_longer_than_the_tables_is_refused() {
    let rot = tables(2, 2, 1.0, 0.0);
    let x = Tensor::zeros((1, 3, 1, 4), candle_core::DType::F32, &Device::Cpu).unwrap();
    assert!(rot.forward(&x).is_err());
    let flat = Tensor::zeros((3, 4), candle_core::DType::F32, &Device::Cpu).unwrap();
    match rot.forward(&flat) {
        Err(qwen_rust::tensor::TensorError::Rank { expected, found }) => {
            assert_eq!((expected, found), (4, 2));
        }
        _ => panic!("a tensor of two axes must be refused"),
    }
}

#[test]
fn head_width_that_does_not_match_the_tables_is_refused() {
    let rot = tables(4, 3, 1.0, 0.0);
    let x = Tensor::zeros((1, 2, 1, 4), candle_core::DType::F32, &Device::Cpu).unwrap();
    assert!(rot.forward(&x).is_err());
}

#[test]
fn element_types_must_match() {
    let rot = tables(4, 2, 1.0, 0.0);
    let x = Tensor::zeros((1, 2, 1, 4), candle_core::DType::F64, &Device::Cpu).unwrap();
    assert!(rot.forward(&x).is_err());
}

#[test]
fn try_forward_is_forward_within_bounds() {
    let rot = tables(2, 2, 0.0, 1.0);
    let x = Tensor::from_vec(vec![1f32, 2., 3., 4.], (1, 1, 1, 4), &Device::Cpu).unwrap();
    let y = rot.try_forward(&x).unwrap();
    assert_eq!(y.flatten_all().unwrap().to_vec1::<f32>().unwrap(), vec![3., 4., -1., -2.]);
}

#[test]
fn integer_elements_are_refused_before_any_arithmetic() {
    let device = Device::Cpu;
    let c = Tensor::from_vec(vec![1u32; 4], (2, 2), &device).unwrap();
    let s = Tensor::from_vec(vec![0u32; 4], (2, 2), &device).unwrap();
    let rot = Rotary::from_tables(c, s);
    let x = Tensor::from_vec(vec![1u32, 2, 3, 4], (1, 1, 1, 4), &device).unwrap();
    assert!(matches!(rot.try_forward(&x), Err(qwen_rust::tensor::TensorError::IntegerElements)));
    // An empty half does no arithmetic and is rotated as it is.
    let empty = Tensor::from_vec(Vec::<u32>::new(), (1, 0, 1, 4), &device).unwrap();
    assert_eq!(rot.try_forward(&empty).unwrap().dims(), &[1, 0, 1, 4]);
}
