//! A dataset of token ids for next-token prediction.
//!
//! The token file is a flat sequence of `u32` token ids, each stored as four
//! little-endian bytes.  A sample at index `idx` is the window of `seq_len`
//! tokens starting at `idx` (the inputs) and the same window moved one token
//! forward (the targets).
use vstd::prelude::*;
use crate::tensor::{device_is_cpu, tensor_from_u32s, tensor_shape, tensor_dtype, tensor_elements, widen, tensor_unsqueeze, TensorError};

verus! {

/// The value of four bytes read as a little-endian `u32`.
pub open spec fn le_u32(b0: u8, b1: u8, b2: u8, b3: u8) -> u32 {
    (b0 as int + 256 * (b1 as int) + 65536 * (b2 as int) + 16777216 * (b3 as int)) as u32
}

/// The token ids stored in `bytes`: one per complete group of four bytes,
/// in order; a trailing group of fewer than four bytes is ignored.
pub open spec fn decode_tokens(bytes: Seq<u8>) -> Seq<u32> {
    Seq::new(
        bytes.len() / 4,
        |i: int| le_u32(bytes[4 * i], bytes[4 * i + 1], bytes[4 * i + 2], bytes[4 * i + 3]),
    )
}

/// The four little-endian bytes of a token id.
pub open spec fn le_bytes(x: u32) -> Seq<u8> {
    seq![
        (x % 256) as u8,
        ((x / 256) % 256) as u8,
        ((x / 65536) % 256) as u8,
        ((x / 16777216) % 256) as u8,
    ]
}

/// The bytes of a token file that stores `tokens`.
pub open spec fn encode_tokens(tokens: Seq<u32>) -> Seq<u8>
    decreases tokens.len(),
{
    if tokens.len() == 0 {
        Seq::empty()
    } else {
        encode_tokens(tokens.drop_last()) + le_bytes(tokens.last())
    }
}

/// Reads the token ids stored in `bytes` (four little-endian bytes each).
pub fn decode_le_u32s(bytes: &[u8]) -> (tokens: Vec<u32>)
    ensures
        tokens@ == decode_tokens(bytes@),
        tokens@.len() == bytes@.len() / 4,
        forall|k: int|
            0 <= k < bytes@.len() / 4 ==> #[trigger] tokens@[k] == bytes@[4 * k] as int + 256
                * (bytes@[4 * k + 1] as int) + 65536 * (bytes@[4 * k + 2] as int) + 16777216 * (
            bytes@[4 * k + 3] as int),
{
    let len: usize = bytes.len();
    let n: usize = len / 4;
    let mut tokens: Vec<u32> = Vec::with_capacity(n);
    let mut i: usize = 0;
    while i < n
        invariant
            len == bytes@.len(),
            n == bytes@.len() / 4,
            i <= n,
            tokens@.len() == i,
            forall|k: int| 0 <= k < i ==> #[trigger] tokens@[k] == decode_tokens(bytes@)[k],
        decreases n - i,
    {
        assert(4 * i + 3 < bytes@.len()) by (nonlinear_arith)
            requires
                i < n,
                n == bytes@.len() / 4,
        ;
        let b0 = bytes[4 * i];
        let b1 = bytes[4 * i + 1];
        let b2 = bytes[4 * i + 2];
        let b3 = bytes[4 * i + 3];
        let v: u32 = b0 as u32 + 256 * (b1 as u32) + 65536 * (b2 as u32) + 16777216 * (b3 as u32);
        tokens.push(v);
        i = i + 1;
    }
    assert(tokens@ =~= decode_tokens(bytes@));
    proof {
        lemma_decode_spelled_out(bytes@);
    }
    tokens
}

/// Decoding spelled out: one token per complete group of four bytes, token
/// `k` being `b[4k] + 256 b[4k+1] + 65536 b[4k+2] + 16777216 b[4k+3]`.
pub proof fn lemma_decode_spelled_out(bytes: Seq<u8>)
    ensures
        decode_tokens(bytes).len() == bytes.len() / 4,
        forall|k: int|
            0 <= k < bytes.len() / 4 ==> #[trigger] decode_tokens(bytes)[k] == bytes[4 * k] as int
                + 256 * (bytes[4 * k + 1] as int) + 65536 * (bytes[4 * k + 2] as int) + 16777216
                * (bytes[4 * k + 3] as int),
{
    assert forall|k: int| 0 <= k < bytes.len() / 4 implies #[trigger] decode_tokens(bytes)[k]
        == bytes[4 * k] as int + 256 * (bytes[4 * k + 1] as int) + 65536 * (bytes[4 * k
        + 2] as int) + 16777216 * (bytes[4 * k + 3] as int) by {
        let (b0, b1, b2, b3) = (bytes[4 * k], bytes[4 * k + 1], bytes[4 * k + 2], bytes[4 * k + 3]);
        assert(b0 as int + 256 * (b1 as int) + 65536 * (b2 as int) + 16777216 * (b3 as int)
            <= u32::MAX);
    }
}

/// A copy of `v[start..end]`.
fn copy_range(v: &Vec<u32>, start: usize, end: usize) -> (r: Vec<u32>)
    requires
        start <= end <= v@.len(),
    ensures
        r@ == v@.subrange(start as int, end as int),
{
    let mut r: Vec<u32> = Vec::with_capacity(end - start);
    let mut i: usize = start;
    while i < end
        invariant
            start <= i <= end <= v@.len(),
            r@ == v@.subrange(start as int, i as int),
        decreases end - i,
    {
        r.push(v[i]);
        i = i + 1;
        assert(r@ =~= v@.subrange(start as int, i as int));
    }
    r
}

/// A dataset of token ids, cut into windows of `seq_len` tokens.
pub struct TextTokenDataset {
    tokens: Vec<u32>,
    seq_len: usize,
}

impl TextTokenDataset {
    /// The token ids of the dataset.
    pub closed spec fn token_seq(&self) -> Seq<u32> {
        self.tokens@
    }

    /// The number of tokens in an input window.
    pub closed spec fn window_len(&self) -> nat {
        self.seq_len as nat
    }

    /// The number of samples: the windows of `seq_len + 1` tokens that fit
    /// in the token sequence, or 0 when none does.
    pub open spec fn spec_len(&self) -> nat {
        if self.token_seq().len() >= self.window_len() {
            (self.token_seq().len() - self.window_len()) as nat
        } else {
            0
        }
    }

    /// The input window of sample `idx`.
    pub open spec fn inputs_at(&self, idx: int) -> Seq<u32> {
        self.token_seq().subrange(idx, idx + self.window_len())
    }

    /// The target window of sample `idx`: the input window moved one token
    /// forward.
    pub open spec fn targets_at(&self, idx: int) -> Seq<u32> {
        self.token_seq().subrange(idx + 1, idx + self.window_len() + 1)
    }

    /// A dataset of the given token ids.
    pub fn from_tokens(tokens: Vec<u32>, seq_len: usize) -> (ds: Self)
        ensures
            ds.token_seq() == tokens@,
            ds.window_len() == seq_len,
    {
        TextTokenDataset { tokens, seq_len }
    }

    /// A dataset of the token ids stored in the bytes of a token file.
    pub fn from_bytes(bytes: &[u8], seq_len: usize) -> (ds: Self)
        ensures
            ds.token_seq() == decode_tokens(bytes@),
            ds.window_len() == seq_len,
    {
        let tokens = decode_le_u32s(bytes);
        TextTokenDataset { tokens, seq_len }
    }

    /// The number of samples.
    pub fn len(&self) -> (n: usize)
        ensures
            n == self.spec_len(),
            self.token_seq().len() >= self.window_len() ==> n == self.token_seq().len()
                - self.window_len(),
            self.token_seq().len() < self.window_len() ==> n == 0,
    {
        self.tokens.len().saturating_sub(self.seq_len)
    }

    /// The number of tokens in an input window.
    pub fn seq_len(&self) -> (n: usize)
        ensures
            n == self.window_len(),
    {
        self.seq_len
    }

    /// The input and target windows of sample `idx`, which must be a sample
    /// of the dataset (`idx < self.len()`).
    pub fn window(&self, idx: usize) -> (r: (Vec<u32>, Vec<u32>))
        requires
            idx < self.spec_len(),
        ensures
            r.0@ == self.inputs_at(idx as int),
            r.1@ == self.targets_at(idx as int),
            r.0@ == self.token_seq().subrange(idx as int, idx + self.window_len()),
            r.1@ == self.token_seq().subrange(idx + 1, idx + self.window_len() + 1),
    {
        let n_tokens = self.tokens.len();
        assert(idx + self.seq_len < n_tokens);
        let end = idx + self.seq_len;
        let x = copy_range(&self.tokens, idx, end);
        let y = copy_range(&self.tokens, idx + 1, end + 1);
        (x, y)
    }

    /// Sample `idx` as tensors on `device`: the inputs with shape
    /// `[1, seq_len]` and the targets with shape `[seq_len]`.  On the CPU this
    /// always succeeds; another device may refuse the storage.
    pub fn get(&self, idx: usize, device: &candle_core::Device) -> (r: Result<
        (candle_core::Tensor, candle_core::Tensor),
        TensorError,
    >)
        requires
            idx < self.spec_len(),
        ensures
            device_is_cpu(*device) ==> r is Ok,
            r matches Ok((x, y)) ==> {
                &&& tensor_shape(x) == seq![1usize, self.window_len() as usize]
                &&& tensor_elements(x) == widen(self.inputs_at(idx as int))
                &&& tensor_dtype(x) == "u32"@
                &&& tensor_shape(y) == seq![self.window_len() as usize]
                &&& tensor_elements(y) == widen(self.targets_at(idx as int))
                &&& tensor_dtype(y) == "u32"@
                &&& tensor_elements(x) == widen(
                    self.token_seq().subrange(idx as int, idx + self.window_len()),
                )
                &&& tensor_elements(y) == widen(
                    self.token_seq().subrange(idx + 1, idx + self.window_len() + 1),
                )
            },
    {
        let (xs, ys) = self.window(idx);
        let x = match tensor_from_u32s(xs, self.seq_len, device) {
            Ok(t) => t,
            Err(e) => return Err(TensorError::Backend(e)),
        };
        let x = match tensor_unsqueeze(&x, 0) {
            Ok(t) => t,
            Err(e) => return Err(TensorError::Backend(e)),
        };
        let y = match tensor_from_u32s(ys, self.seq_len, device) {
            Ok(t) => t,
            Err(e) => return Err(TensorError::Backend(e)),
        };
        Ok((x, y))
    }
}

/// The bytes of a token read back as a little-endian `u32` give the token.
proof fn lemma_le_u32_of_le_bytes(x: u32)
    ensures
        le_u32(le_bytes(x)[0], le_bytes(x)[1], le_bytes(x)[2], le_bytes(x)[3]) == x,
{
    assert(x % 256 + 256 * ((x / 256) % 256) + 65536 * ((x / 65536) % 256) + 16777216 * ((x
        / 16777216) % 256) == x) by (bit_vector);
}

/// Where each token's bytes stand in the encoding of a token sequence.
proof fn lemma_encode_tokens_layout(tokens: Seq<u32>)
    ensures
        encode_tokens(tokens).len() == 4 * tokens.len(),
        forall|i: int, k: int|
            0 <= i < tokens.len() && 0 <= k < 4 ==> encode_tokens(tokens)[4 * i + k] == #[trigger] le_bytes(
                tokens[i],
            )[k],
    decreases tokens.len(),
{
    if tokens.len() > 0 {
        let init = tokens.drop_last();
        lemma_encode_tokens_layout(init);
        assert forall|i: int, k: int|
            0 <= i < tokens.len() && 0 <= k < 4 implies encode_tokens(tokens)[4 * i + k]
            == #[trigger] le_bytes(tokens[i])[k] by {
            if i < tokens.len() - 1 {
                assert(init[i] == tokens[i]);
            }
        }
    }
}

/// Reading a token file gives back the token ids that were written to it.
pub proof fn lemma_decode_encode_roundtrip(tokens: Seq<u32>)
    ensures
        decode_tokens(encode_tokens(tokens)) == tokens,
{
    lemma_encode_tokens_layout(tokens);
    let bytes = encode_tokens(tokens);
    assert forall|i: int| 0 <= i < tokens.len() implies #[trigger] decode_tokens(bytes)[i]
        == tokens[i] by {
        let lb = le_bytes(tokens[i]);
        assert(bytes[4 * i] == lb[0]);
        assert(bytes[4 * i + 1] == lb[1]);
        assert(bytes[4 * i + 2] == lb[2]);
        assert(bytes[4 * i + 3] == lb[3]);
        lemma_le_u32_of_le_bytes(tokens[i]);
    }
    assert(decode_tokens(bytes) =~= tokens);
}

/// The samples of a dataset are exactly the indices whose input and target
/// windows lie inside the token sequence: `window` and `get` accept exactly
/// the indices below `len()`, and every such index reads only tokens that
/// exist.
pub proof fn lemma_len_counts_windows(ds: &TextTokenDataset, idx: nat)
    ensures
        idx < ds.spec_len() <==> idx + ds.window_len() + 1 <= ds.token_seq().len(),
{
}

/// The targets of a sample are its inputs moved one token forward: target
/// `k` is input `k + 1`, and the last target is the token that follows the
/// input window.  The inputs of the next sample are the targets of this one.
pub proof fn lemma_targets_follow_inputs(ds: &TextTokenDataset, idx: nat)
    requires
        idx < ds.spec_len(),
    ensures
        ds.targets_at(idx as int).len() == ds.inputs_at(idx as int).len(),
        forall|k: int|
            0 <= k < ds.window_len() - 1 ==> #[trigger] ds.targets_at(idx as int)[k]
                == ds.inputs_at(idx as int)[k + 1],
        ds.window_len() > 0 ==> ds.targets_at(idx as int)[ds.window_len() - 1]
            == ds.token_seq()[(idx + ds.window_len()) as int],
        idx + 1 < ds.spec_len() ==> ds.inputs_at(idx + 1int) == ds.targets_at(idx as int),
{
    assert(idx + 1 < ds.spec_len() ==> ds.inputs_at(idx + 1int) =~= ds.targets_at(idx as int));
}

} // verus!
