use candle_core::{Device, IndexOp, Result, Tensor};
use qwen_rust::tensor::TensorError;
use qwen_rust::tensor_utils::{repeat_kv, try_repeat_kv};

fn repeat(x: &Tensor, n_rep: usize) -> Result<Tensor> {
    match repeat_kv(x, n_rep) {
        Ok(t) => Ok(t),
        Err(TensorError::Backend(e)) => Err(e),
        Err(TensorError::Rank { expected, found }) => {
            panic!("expected a tensor of {expected} axes, found {found}")
        }
        Err(TensorError::TooLarge) => panic!("shape too large"),
        Err(TensorError::IntegerElements) => panic!("integer arithmetic"),
    }
}

#[test]
fn test_repeat_kv() -> Result<()> {
    let device = &Device::Cpu;

    // 1. Create a small tensor: (b=1, n_kv_heads=2, seq_len=2, head_dim=2)
    // Values: 0.0 to 7.0 (Total 8 elements)
    let x = Tensor::arange(0f32, 8f32, device)?.reshape((1, 2, 2, 2))?;

    // 2. Execute the function with n_rep = 2
    let n_rep = 2;
    let out = repeat(&x, n_rep)?;

    // 3. Assert target dimensions: (1, 4, 2, 2)
    assert_eq!(out.dims(), &[1, 4, 2, 2]);

    // 4. Head 0: [[0, 1], [2, 3]], head 1: [[4, 5], [6, 7]]
    let orig_head_0 = x.i((0, 0, .., ..))?.to_vec2::<f32>()?;
    let orig_head_1 = x.i((0, 1, .., ..))?.to_vec2::<f32>()?;

    let out_head_0 = out.i((0, 0, .., ..))?.to_vec2::<f32>()?;
    let out_head_1 = out.i((0, 1, .., ..))?.to_vec2::<f32>()?;
    let out_head_2 = out.i((0, 2, .., ..))?.to_vec2::<f32>()?;
    let out_head_3 = out.i((0, 3, .., ..))?.to_vec2::<f32>()?;

    // 5. Each key/value head is repeated n_rep times in a row
    assert_eq!(out_head_0, orig_head_0);
    assert_eq!(out_head_1, orig_head_0);

    assert_eq!(out_head_2, orig_head_1);
    assert_eq!(out_head_3, orig_head_1);

    Ok(())
}

#[test]
fn repeat_kv_once_returns_the_input() -> Result<()> {
    let device = &Device::Cpu;
    let x = Tensor::arange(0f32, 12f32, device)?.reshape((1, 3, 2, 2))?;
    let out = repeat(&x, 1)?;
    assert_eq!(out.dims(), &[1, 3, 2, 2]);
    assert_eq!(out.flatten_all()?.to_vec1::<f32>()?, x.flatten_all()?.to_vec1::<f32>()?);
    Ok(())
}

#[test]
fn repeat_kv_three_times() -> Result<()> {
    let device = &Device::Cpu;
    let x = Tensor::arange(0f32, 8f32, device)?.reshape((2, 2, 1, 2))?;
    let out = repeat(&x, 3)?;
    assert_eq!(out.dims(), &[2, 6, 1, 2]);
    let values = out.flatten_all()?.to_vec1::<f32>()?;
    assert_eq!(
        values,
        vec![
            0., 1., 0., 1., 0., 1., 2., 3., 2., 3., 2., 3., 4., 5., 4., 5., 4., 5., 6., 7., 6., 7.,
            6., 7.
        ]
    );
    Ok(())
}

#[test]
fn repeat_kv_refuses_a_tensor_without_four_axes() -> Result<()> {
    let device = &Device::Cpu;
    let x = Tensor::arange(0f32, 8f32, device)?.reshape((2, 2, 2))?;
    match repeat_kv(&x, 2) {
        Err(TensorError::Rank { expected, found }) => {
            assert_eq!(expected, 4);
            assert_eq!(found, 3);
        }
        _ => panic!("a tensor of three axes must be refused"),
    }
    // With n_rep == 1 the tensor is handed back whatever its rank.
    let same = repeat(&x, 1)?;
    assert_eq!(same.dims(), &[2, 2, 2]);
    Ok(())
}

#[test]
fn try_repeat_kv_refuses_counts_that_overflow() -> Result<()> {
    let device = &Device::Cpu;
    // A zero-element tensor whose axis sizes multiply past a usize when repeated.
    let big = 1usize << 40;
    let x = Tensor::zeros((0, 1, 1, 1), candle_core::DType::F32, device)?.expand((0, big, 1, big))?;
    assert!(matches!(try_repeat_kv(&x, 2), Err(TensorError::TooLarge)));
    // Within bounds it is repeat_kv.
    let y = Tensor::arange(0f32, 8f32, device)?.reshape((1, 2, 2, 2))?;
    let out = match try_repeat_kv(&y, 2) {
        Ok(t) => t,
        Err(_) => panic!("a small tensor must be repeated"),
    };
    assert_eq!(out.dims(), &[1, 4, 2, 2]);
    Ok(())
}
