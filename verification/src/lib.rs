//! The verified core of a small Qwen3-style decoder-only transformer.
//!
//! The tensor arithmetic of the model runs in `candle_core`; this library
//! holds the logic around it, with contracts: the architecture's integer
//! sizes (`config`, `attention`, `rope`), the causal mask, the repetition of
//! key/value heads and the rotary embedding at the level of tensor shapes
//! (`tensor_utils`, `rope`), the token dataset (`data`), the training
//! schedule (`train`) and the generation loop (`inference`).  `tensor`
//! declares the `candle_core` operations it calls and what is known of them.
pub mod attention;
pub mod config;
pub mod data;
pub mod inference;
pub mod rope;
pub mod tensor;
pub mod tensor_utils;
pub mod train;
