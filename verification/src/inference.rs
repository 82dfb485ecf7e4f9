//! The token loop of autoregressive generation.
//!
//! Generation starts from a prompt and appends one sampled token per step.
//! It stops after `max_length` new tokens, or right after the end-of-sequence
//! token has been appended, whichever comes first.  Choosing the next token
//! (running the model, temperature, top-k, top-p, sampling) is done by the
//! caller, which hands each chosen token to `Generation::record`.
use vstd::prelude::*;
use crate::tensor::{device_is_cpu, tensor_from_u32s, tensor_shape, tensor_dtype, tensor_elements, widen, tensor_unsqueeze, TensorError};

verus! {

/// The state of a generation run.
pub struct Generation {
    tokens: Vec<u32>,
    prompt_len: usize,
    max_length: usize,
    eos_token_id: u32,
    finished: bool,
}

impl Generation {
    /// The prompt the run started from.
    pub closed spec fn prompt(&self) -> Seq<u32> {
        self.tokens@.take(self.prompt_len as int)
    }

    /// The tokens appended so far.
    pub closed spec fn generated(&self) -> Seq<u32> {
        self.tokens@.skip(self.prompt_len as int)
    }

    /// The most new tokens the run appends.
    pub closed spec fn max_new(&self) -> nat {
        self.max_length as nat
    }

    /// The end-of-sequence token.
    pub closed spec fn eos(&self) -> u32 {
        self.eos_token_id
    }

    /// Whether the run has stopped.
    pub closed spec fn done(&self) -> bool {
        self.finished
    }

    /// The run's whole token sequence: the prompt, then the appended tokens.
    pub open spec fn output(&self) -> Seq<u32> {
        self.prompt() + self.generated()
    }

    /// The state is one that a run reaches: at most `max_new` tokens were
    /// appended, none but the last of them is the end-of-sequence token, and
    /// the run has stopped exactly when `max_new` tokens were appended or
    /// the last one appended is the end-of-sequence token.  Every value of
    /// the type is in such a state.
    #[verifier::type_invariant]
    pub closed spec fn wf(&self) -> bool {
        &&& self.prompt_len <= self.tokens@.len()
        &&& self.generated().len() <= self.max_length
        &&& forall|k: int|
            0 <= k < self.generated().len() - 1 ==> #[trigger] self.generated()[k]
                != self.eos_token_id
        &&& self.finished <==> (self.generated().len() == self.max_length || (self.generated().len()
            > 0 && self.generated().last() == self.eos_token_id))
    }

    /// Starts a run from `prompt`.  A run with `max_length == 0` has stopped
    /// before its first step.
    pub fn new(prompt: Vec<u32>, max_length: usize, eos_token_id: u32) -> (g: Self)
        ensures
            g.prompt() == prompt@,
            g.generated() == Seq::<u32>::empty(),
            g.max_new() == max_length,
            g.eos() == eos_token_id,
            g.done() == (max_length == 0),
    {
        let prompt_len = prompt.len();
        let g = Generation {
            tokens: prompt,
            prompt_len,
            max_length,
            eos_token_id,
            finished: max_length == 0,
        };
        assert(g.prompt() =~= prompt@);
        assert(g.generated() =~= Seq::<u32>::empty());
        g
    }

    /// Whether the run has stopped.
    pub fn is_finished(&self) -> (b: bool)
        ensures
            b == self.done(),
    {
        self.finished
    }

    /// The run's whole token sequence so far, which is the model's input at
    /// the next step.
    pub fn tokens(&self) -> (t: &Vec<u32>)
        ensures
            t@ == self.output(),
    {
        proof {
            use_type_invariant(self);
        }
        assert(self.tokens@ =~= self.output());
        &self.tokens
    }

    /// The model's input at the next step: the run's whole token sequence as
    /// a batch of one, a tensor of shape `[1, len]` on `device`.  On the CPU
    /// this always succeeds; another device may refuse the storage.
    pub fn input_tensor(&self, device: &candle_core::Device) -> (r: Result<
        candle_core::Tensor,
        TensorError,
    >)
        requires
            self.wf(),
        ensures
            device_is_cpu(*device) ==> r is Ok,
            r matches Ok(t) ==> tensor_shape(t) == seq![1usize, self.output().len() as usize]
                && tensor_elements(t) == widen(self.output()) && tensor_dtype(t) == "u32"@,
    {
        proof {
            use_type_invariant(self);
        }
        let tokens = self.tokens.clone();
        assert(tokens@ =~= self.tokens@);
        assert(self.tokens@ =~= self.output());
        let n = tokens.len();
        let t = match tensor_from_u32s(tokens, n, device) {
            Ok(t) => t,
            Err(e) => return Err(TensorError::Backend(e)),
        };
        match tensor_unsqueeze(&t, 0) {
            Ok(u) => Ok(u),
            Err(e) => Err(TensorError::Backend(e)),
        }
    }

    /// Appends the token chosen at this step.  The run stops when it is the
    /// end-of-sequence token or when it is the `max_new`-th appended token.
    pub fn record(&mut self, token: u32)
        requires
            !old(self).done(),
        ensures
            final(self).prompt() == old(self).prompt(),
            final(self).generated() == old(self).generated().push(token),
            final(self).max_new() == old(self).max_new(),
            final(self).eos() == old(self).eos(),
            final(self).done() == (token == old(self).eos() || old(self).generated().len() + 1
                == old(self).max_new()),
    {
        proof {
            use_type_invariant(&*self);
        }
        let ghost old_generated = self.generated();
        let ghost old_prompt = self.prompt();
        // Take the state out (leaving a stopped empty run), extend it, and
        // put the extended state back.
        let mut current = Generation {
            tokens: Vec::new(),
            prompt_len: 0,
            max_length: 0,
            eos_token_id: 0,
            finished: true,
        };
        std::mem::swap(self, &mut current);
        let Generation { mut tokens, prompt_len, max_length, eos_token_id, finished: _ } = current;
        assert(tokens@.skip(prompt_len as int) == old_generated);
        tokens.push(token);
        assert(tokens@.skip(prompt_len as int) =~= old_generated.push(token));
        assert(tokens@.take(prompt_len as int) =~= old_prompt);
        let n_generated = tokens.len() - prompt_len;
        let finished = token == eos_token_id || n_generated == max_length;
        let next = Generation { tokens, prompt_len, max_length, eos_token_id, finished };
        assert(next.prompt() =~= old_prompt);
        assert(next.generated() =~= old_generated.push(token));
        *self = next;
    }

    /// The run's whole token sequence.
    pub fn into_tokens(self) -> (t: Vec<u32>)
        ensures
            t@ == self.output(),
    {
        proof {
            use_type_invariant(&self);
        }
        assert(self.tokens@ =~= self.output());
        self.tokens
    }
}

/// Top-k filtering keeps the logits that are at least the `top_k`-th
/// largest.  It applies only when `0 < top_k < vocab_size`; then the
/// threshold is the logit of rank `top_k - 1` (counting from 0) in
/// decreasing order, and this returns that rank.  Otherwise every logit is
/// kept and this returns `None`.
pub fn top_k_threshold_rank(top_k: usize, vocab_size: usize) -> (r: Option<usize>)
    ensures
        r == if 0 < top_k && top_k < vocab_size {
            Some((top_k - 1) as usize)
        } else {
            None::<usize>
        },
{
    if top_k > 0 && top_k < vocab_size {
        Some(top_k - 1)
    } else {
        None
    }
}

/// Nucleus (top-p) filtering keeps the most probable tokens, in decreasing
/// order of probability, up to and including the first one at which the
/// running total of probability exceeds `top_p`.  `exceeds[pos]` tells
/// whether the running total of the `pos + 1` most probable tokens exceeds
/// `top_p`; the result is the number of tokens kept: one more than the
/// first position where it does, or all of them when it never does.
pub fn nucleus_cutoff(exceeds: &Vec<bool>) -> (n: usize)
    ensures
        n <= exceeds@.len(),
        forall|pos: int| 0 <= pos < n - 1 ==> !#[trigger] exceeds@[pos],
        n < exceeds@.len() ==> n > 0 && exceeds@[n - 1],
{
    let mut pos: usize = 0;
    while pos < exceeds.len()
        invariant
            pos <= exceeds@.len(),
            forall|q: int| 0 <= q < pos ==> !#[trigger] exceeds@[q],
        decreases exceeds@.len() - pos,
    {
        if exceeds[pos] {
            return pos + 1;
        }
        pos = pos + 1;
    }
    exceeds.len()
}

/// What every run that has stopped has produced: its output starts with the
/// prompt; at most `max_length` tokens were appended; none of them but the
/// last is the end-of-sequence token; and fewer than `max_length` tokens
/// were appended only when the last one is the end-of-sequence token.
pub proof fn lemma_finished_run(g: &Generation)
    requires
        g.wf(),
        g.done(),
    ensures
        g.output().take(g.prompt().len() as int) == g.prompt(),
        g.generated().len() <= g.max_new(),
        forall|k: int|
            0 <= k < g.generated().len() - 1 ==> #[trigger] g.generated()[k] != g.eos(),
        g.generated().len() < g.max_new() ==> g.generated().len() > 0 && g.generated().last()
            == g.eos(),
{
    assert(g.output().take(g.prompt().len() as int) =~= g.prompt());
}

/// A run that is still going has appended fewer than `max_length` tokens,
/// none of which is the end-of-sequence token.
pub proof fn lemma_running_run(g: &Generation)
    requires
        g.wf(),
        !g.done(),
    ensures
        g.generated().len() < g.max_new(),
        forall|k: int| 0 <= k < g.generated().len() ==> #[trigger] g.generated()[k] != g.eos(),
{
}

} // verus!
