# qwen_rust

A Qwen3-style decoder-only transformer (grouped-query attention, rotary
position embedding, QK-RMSNorm, SwiGLU) on top of `candle`.

- `src/` is the verified library: the architecture's integer sizes, the
  causal mask, key/value head repetition and rotary embedding (with
  contracts on tensor shapes), the token dataset, the training schedule and
  the generation loop.  The `candle_core` operations it calls are declared in
  `src/tensor.rs` with what is known of them.
- `app/` is the program around it: the layers whose work is floating-point
  arithmetic (RMSNorm, attention scores, SwiGLU, the model), training and
  sampling, file reading, and the smoke test in `main`.
- `tests/` exercises the library on concrete values.
