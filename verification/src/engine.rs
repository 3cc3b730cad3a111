//! The inference worker's state machine and streaming decoder.
//!
//! The worker is the single owner of the backend, the model weights, and the
//! persistent context (the KV cache). It serves commands in order; the
//! context always drops before the model it borrows from. The decoder turns
//! sampled token bytes into a stream of text pieces with one terminal value,
//! observing the stop flag cooperatively.

use std::hash::{BuildHasher, Hasher};
use vstd::prelude::*;
use vstd::utf8::{decode_utf8, valid_utf8};

use crate::context::{plan_context, ContextPlan, CtxConfig};
use crate::gguf::ModelError;
use crate::params::GenerationParams;
use crate::stream::StreamToken;
use crate::utf8_stream::{reassembly_step, Utf8Assembler};

verus! {

/// Errors of worker operations.
#[derive(Debug, Clone, PartialEq, Eq)]
pub enum EngineError {
    /// The worker was used before its backend was initialized.
    BackendNotInitialized,
    /// A generation was requested with no model loaded.
    NoModelLoaded,
    /// The backend failed to initialize.
    BackendInit(String),
    /// The tensor runtime refused the model file.
    ModelLoad(String),
    /// The runtime could not build a context.
    ContextCreate(String),
    /// The file failed GGUF header checks.
    ModelValidation(String),
    /// The prompt could not be tokenized.
    Tokenization(String),
    /// A decode, sample, or convert failure mid-stream.
    Inference(String),
    /// The worker thread or its channels failed.
    WorkerError(String),
}

/// The message text of a model-file error.
pub open spec fn spec_model_error_message(e: ModelError) -> Seq<char> {
    match e {
        ModelError::FileOpen(s) => "Failed to open file: "@ + s@,
        ModelError::InvalidMagic(m) => "Invalid GGUF file: magic bytes mismatch, got "@
            + crate::text::spec_decimal(m as nat),
        ModelError::UnsupportedVersion(v) => "Unsupported GGUF version: "@
            + crate::text::spec_decimal(v as nat),
        ModelError::FileTooSmall => "File too small to be valid GGUF"@,
    }
}

impl EngineError {
    /// The validation error a rejected model file surfaces as.
    pub fn from_model_error(e: &ModelError) -> (r: EngineError)
        ensures
            r matches EngineError::ModelValidation(s) && s@ == spec_model_error_message(*e),
    {
        let mut msg = String::new();
        match e {
            ModelError::FileOpen(s) => {
                crate::text::append_str(&mut msg, "Failed to open file: ");
                crate::text::append_str(&mut msg, s.as_str());
            },
            ModelError::InvalidMagic(m) => {
                crate::text::append_str(&mut msg, "Invalid GGUF file: magic bytes mismatch, got ");
                let d = crate::text::u64_to_string(*m as u64);
                crate::text::append_str(&mut msg, d.as_str());
            },
            ModelError::UnsupportedVersion(v) => {
                crate::text::append_str(&mut msg, "Unsupported GGUF version: ");
                let d = crate::text::u64_to_string(*v as u64);
                crate::text::append_str(&mut msg, d.as_str());
            },
            ModelError::FileTooSmall => {
                crate::text::append_str(&mut msg, "File too small to be valid GGUF");
            },
        }
        EngineError::ModelValidation(msg)
    }
}

/// What a loaded model reports about itself; read-only after load.
#[derive(Debug, Clone, PartialEq, Eq)]
pub struct LoadedModelInfo {
    /// Path the model was loaded from.
    pub path: String,
    /// Vocabulary size.
    pub vocab_size: i32,
    /// Embedding dimension.
    pub embedding_dim: i32,
    /// Train-time context length in tokens.
    pub context_length: u32,
    /// Parameter count.
    pub param_count: u64,
    /// File size in bytes.
    pub size_bytes: u64,
}

/// The worker's owned state: whether the backend is up, which model is
/// loaded, and the sizes of the persistent context, if one is built.
pub struct WorkerState {
    /// Whether the backend singleton was created.
    pub backend_ready: bool,
    /// The loaded model, if any.
    pub model: Option<LoadedModelInfo>,
    /// The persistent context's sizes, if one is built.
    pub ctx: Option<CtxConfig>,
    /// Thread count, computed once at worker start.
    pub n_threads: i32,
}

impl WorkerState {
    /// The drop-order invariant: the context borrows the model's tensors, so
    /// a context never outlives its model.
    pub open spec fn wf(&self) -> bool {
        self.model is None ==> self.ctx is None
    }

    /// A fresh worker: nothing initialized, nothing loaded.
    pub fn new(logical_cores: i32) -> (r: Self)
        requires
            logical_cores >= 0,
        ensures
            r.wf(),
            !r.backend_ready,
            r.model is None,
            r.ctx is None,
            r.n_threads == crate::context::spec_optimal_threads(logical_cores),
    {
        WorkerState {
            backend_ready: false,
            model: None,
            ctx: None,
            n_threads: crate::context::optimal_threads(logical_cores),
        }
    }

    /// Record the outcome of backend initialization. Idempotent: once ready,
    /// the worker stays ready; a failure leaves it accepting commands with
    /// later operations failing.
    pub fn on_init(&mut self, backend_ok: bool)
        requires
            old(self).wf(),
        ensures
            final(self).wf(),
            final(self).backend_ready == (old(self).backend_ready || backend_ok),
            final(self).model == old(self).model,
            final(self).ctx == old(self).ctx,
            final(self).n_threads == old(self).n_threads,
    {
        if backend_ok {
            self.backend_ready = true;
        }
    }

    /// Start serving a LOAD: the context drops first, then the model, so
    /// that the weights are never freed under a live context.
    pub fn begin_load(&mut self)
        requires
            old(self).wf(),
        ensures
            final(self).wf(),
            final(self).model is None,
            final(self).ctx is None,
            final(self).backend_ready == old(self).backend_ready,
            final(self).n_threads == old(self).n_threads,
    {
        self.ctx = None;
        self.model = None;
    }

    /// Record a successful load. A failed load leaves the worker with no
    /// model (`begin_load` already cleared it).
    pub fn finish_load(&mut self, info: LoadedModelInfo)
        requires
            old(self).wf(),
            old(self).model is None,
        ensures
            final(self).wf(),
            final(self).model == Some(info),
            final(self).ctx is None,
            final(self).backend_ready == old(self).backend_ready,
            final(self).n_threads == old(self).n_threads,
    {
        self.model = Some(info);
    }

    /// Serve UNLOAD: context first, then model.
    pub fn on_unload(&mut self)
        requires
            old(self).wf(),
        ensures
            final(self).wf(),
            final(self).model is None,
            final(self).ctx is None,
            final(self).backend_ready == old(self).backend_ready,
            final(self).n_threads == old(self).n_threads,
    {
        self.ctx = None;
        self.model = None;
    }

    /// Serve SHUTDOWN: context, then model, then backend.
    pub fn on_shutdown(&mut self)
        requires
            old(self).wf(),
        ensures
            final(self).wf(),
            final(self).model is None,
            final(self).ctx is None,
            !final(self).backend_ready,
    {
        self.ctx = None;
        self.model = None;
        self.backend_ready = false;
    }

    /// Whether a GENERATE can be served at all.
    pub fn can_generate(&self) -> (r: bool)
        ensures
            r == (self.backend_ready && self.model is Some),
    {
        self.backend_ready && matches!(&self.model, Some(_))
    }

    /// Obtain a ready context for a generation: reuse the stored one when it
    /// is large enough, otherwise record the one to be built in its place.
    /// Either way the KV cache is cleared before decoding, so reuse saves
    /// the allocation only, never leaks contents.
    pub fn prepare_context(&mut self, prompt_len: u32, params: &GenerationParams) -> (r: Result<
        ContextPlan,
        EngineError,
    >)
        requires
            old(self).wf(),
        ensures
            final(self).wf(),
            final(self).backend_ready == old(self).backend_ready,
            final(self).model == old(self).model,
            final(self).n_threads == old(self).n_threads,
            !(old(self).backend_ready && old(self).model is Some) ==> r
                == Err::<ContextPlan, EngineError>(EngineError::NoModelLoaded) && final(self).ctx
                == old(self).ctx,
            old(self).backend_ready && old(self).model is Some ==> (r matches Ok(plan) && {
                let train_ctx = old(self).model->Some_0.context_length;
                &&& plan == crate::context::spec_plan_context(
                    old(self).ctx,
                    prompt_len,
                    params.max_tokens,
                    params.max_context_size,
                    train_ctx,
                )
                &&& final(self).ctx == Some(plan.config)
            }),
    {
        if !self.backend_ready {
            return Err(EngineError::NoModelLoaded);
        }
        let train_ctx = match &self.model {
            Some(m) => m.context_length,
            None => {
                return Err(EngineError::NoModelLoaded);
            },
        };
        let plan = plan_context(
            &self.ctx,
            prompt_len,
            params.max_tokens,
            params.max_context_size,
            train_ctx,
        );
        self.ctx = Some(plan.config);
        Ok(plan)
    }
}

/// The number of trailing prompt tokens kept when the prompt must fit the
/// context alongside the output budget: the tail of length
/// `max(n_ctx - max_tokens, 1)`; recent history wins.
pub open spec fn spec_kept_prompt(tokens: Seq<i32>, n_ctx: u32, max_tokens: u32) -> Seq<i32> {
    let cap: int = if n_ctx > max_tokens {
        n_ctx - max_tokens
    } else {
        1
    };
    let cap = if cap >= 1 {
        cap
    } else {
        1
    };
    if tokens.len() <= cap {
        tokens
    } else {
        tokens.subrange(tokens.len() - cap, tokens.len() as int)
    }
}

/// Truncate a tokenized prompt to fit the context, keeping the most recent
/// tokens.
pub fn truncate_prompt(tokens: Vec<i32>, n_ctx: u32, max_tokens: u32) -> (r: Vec<i32>)
    ensures
        r@ == spec_kept_prompt(tokens@, n_ctx, max_tokens),
{
    let cap64: u64 = if n_ctx > max_tokens {
        (n_ctx - max_tokens) as u64
    } else {
        1
    };
    let cap64: u64 = if cap64 >= 1 {
        cap64
    } else {
        1
    };
    if tokens.len() as u64 <= cap64 {
        return tokens;
    }
    let cap: usize = cap64 as usize;
    let start: usize = tokens.len() - cap;
    let mut r: Vec<i32> = Vec::new();
    let mut i: usize = start;
    while i < tokens.len()
        invariant
            start <= i <= tokens@.len(),
            r@ == tokens@.subrange(start as int, i as int),
        decreases tokens@.len() - i,
    {
        r.push(tokens[i]);
        proof {
            assert(r@ =~= tokens@.subrange(start as int, i + 1 as int));
        }
        i = i + 1;
    }
    proof {
        assert(r@ =~= tokens@.subrange(start as int, tokens@.len() as int));
    }
    r
}

/// The output budget clamped so that prompt plus output fit the context,
/// with a floor of 64 tokens.
pub open spec fn spec_clamped_max_tokens(n_ctx: u32, prompt_len: u32, max_tokens: u32) -> u32 {
    let available: u32 = if n_ctx > prompt_len {
        if n_ctx - prompt_len >= 64 {
            (n_ctx - prompt_len) as u32
        } else {
            64
        }
    } else {
        64
    };
    if max_tokens <= available {
        max_tokens
    } else {
        available
    }
}

/// Clamp the output budget to what the context has room for.
pub fn clamp_max_tokens(n_ctx: u32, prompt_len: u32, max_tokens: u32) -> (r: u32)
    ensures
        r == spec_clamped_max_tokens(n_ctx, prompt_len, max_tokens),
{
    let available: u32 = if n_ctx > prompt_len {
        if n_ctx - prompt_len >= 64 {
            n_ctx - prompt_len
        } else {
            64
        }
    } else {
        64
    };
    if max_tokens <= available {
        max_tokens
    } else {
        available
    }
}

/// Relies on `RandomState` of std's hash map: a hasher seeded from system
/// entropy, whose finish value serves as a fresh sampling seed. Nothing is
/// promised of the value: it depends on process-wide entropy.
#[verifier::external_body]
pub fn rand_seed() -> u32 {
    std::collections::hash_map::RandomState::new().build_hasher().finish() as u32
}


/// The prompt prefill plan: consecutive half-open chunks of at most
/// `n_batch` tokens covering positions `0..prompt_len`, in order. The
/// decoder feeds each chunk to one decode call and requests logits only for
/// the last prompt token (`wants_logits`).
pub fn prefill_chunks(prompt_len: usize, n_batch: usize) -> (r: Vec<(usize, usize)>)
    requires
        n_batch >= 1,
    ensures
        prompt_len == 0 ==> r@.len() == 0,
        prompt_len > 0 ==> r@.len() > 0 && r@[0].0 == 0 && r@.last().1 == prompt_len,
        forall|i: int|
            0 <= i < r@.len() ==> (#[trigger] r@[i]).0 < r@[i].1 && r@[i].1 - r@[i].0 <= n_batch
                && r@[i].1 <= prompt_len,
        forall|i: int| 0 <= i < r@.len() - 1 ==> (#[trigger] r@[i]).1 == r@[i + 1].0,
{
    let mut r: Vec<(usize, usize)> = Vec::new();
    let mut start: usize = 0;
    while start < prompt_len
        invariant
            n_batch >= 1,
            start <= prompt_len,
            start == 0 ==> r@.len() == 0,
            start > 0 ==> r@.len() > 0 && r@[0].0 == 0 && r@.last().1 == start,
            forall|i: int|
                0 <= i < r@.len() ==> (#[trigger] r@[i]).0 < r@[i].1 && r@[i].1 - r@[i].0
                    <= n_batch && r@[i].1 <= prompt_len,
            forall|i: int| 0 <= i < r@.len() - 1 ==> (#[trigger] r@[i]).1 == r@[i + 1].0,
        decreases prompt_len - start,
    {
        let end: usize = if prompt_len - start > n_batch {
            start + n_batch
        } else {
            prompt_len
        };
        r.push((start, end));
        start = end;
    }
    r
}

/// Whether logits are requested at a prompt position: only at the last
/// prompt token, where the first sample is decoded.
pub fn wants_logits(global_index: usize, prompt_len: usize) -> (r: bool)
    requires
        global_index < prompt_len,
    ensures
        r == (global_index + 1 == prompt_len),
{
    global_index + 1 == prompt_len
}

/// One observation the decode loop makes from the tensor runtime.
#[derive(Debug, Clone, PartialEq, Eq)]
pub enum DecodeStep {
    /// A sampled token, as the raw bytes the model's vocabulary gives it.
    Sampled(Vec<u8>),
    /// The model produced its end-of-generation marker.
    EndMarker,
}

/// The streaming decoder: counts the output budget, re-assembles token
/// bytes into valid UTF-8 text, and ends the stream with exactly one
/// terminal value.
pub struct Decoder {
    chunks_buf: Utf8Assembler,
    tokens_generated: u32,
    max_tokens: u32,
    finished: bool,
}

impl Decoder {
    /// Bytes buffered and not yet emitted.
    pub closed spec fn buffered(&self) -> Seq<u8> {
        self.chunks_buf.buffered()
    }

    /// Whether the stream has ended with a terminal value.
    pub closed spec fn is_finished(&self) -> bool {
        self.finished
    }

    /// Tokens accepted so far.
    pub closed spec fn generated(&self) -> u32 {
        self.tokens_generated
    }

    /// The output budget.
    pub closed spec fn budget(&self) -> u32 {
        self.max_tokens
    }

    /// A decoder for one generation with the given output budget.
    pub fn new(max_tokens: u32) -> (r: Self)
        ensures
            r.buffered() == Seq::<u8>::empty(),
            !r.is_finished(),
            r.generated() == 0,
            r.budget() == max_tokens,
    {
        Decoder { chunks_buf: Utf8Assembler::new(), tokens_generated: 0, max_tokens, finished: false }
    }

    /// One step of the decode loop. `stop` is the cooperative stop flag as
    /// read at the top of the step; when it is set, the buffer is flushed
    /// and the stream ends with `Done` at once, so at most one further
    /// `Token` is emitted after a stop is observed — the cancellation
    /// latency is one token step.
    pub fn step(&mut self, stop: bool, ev: DecodeStep) -> (out: Vec<StreamToken>)
        requires
            !old(self).is_finished(),
            old(self).generated() < old(self).budget(),
        ensures
            final(self).budget() == old(self).budget(),
            stop ==> {
                &&& final(self).is_finished()
                &&& final(self).buffered() == Seq::<u8>::empty()
                &&& out@.last() == StreamToken::Done
                &&& (valid_utf8(old(self).buffered()) && old(self).buffered().len() > 0 ==> out@.len()
                    == 2 && (out@[0] matches StreamToken::Token(t) && t@ == decode_utf8(
                    old(self).buffered(),
                )))
                &&& (!(valid_utf8(old(self).buffered()) && old(self).buffered().len() > 0)
                    ==> out@.len() == 1)
                &&& final(self).generated() == old(self).generated()
            },
            !stop && ev == DecodeStep::EndMarker ==> {
                &&& final(self).is_finished()
                &&& final(self).buffered() == Seq::<u8>::empty()
                &&& out@.last() == StreamToken::Done
                &&& (valid_utf8(old(self).buffered()) && old(self).buffered().len() > 0 ==> out@.len()
                    == 2 && (out@[0] matches StreamToken::Token(t) && t@ == decode_utf8(
                    old(self).buffered(),
                )))
                &&& (!(valid_utf8(old(self).buffered()) && old(self).buffered().len() > 0)
                    ==> out@.len() == 1)
                &&& final(self).generated() == old(self).generated()
            },
            !stop ==> (ev matches DecodeStep::Sampled(bytes) ==> {
                let (text, rest) = reassembly_step(old(self).buffered(), bytes@);
                &&& final(self).generated() == old(self).generated() + 1
                &&& (final(self).generated() < final(self).budget() ==> {
                    &&& !final(self).is_finished()
                    &&& final(self).buffered() == rest
                    &&& (out@.len() == 1 ==> (out@[0] matches StreamToken::Token(t) && t@ == text
                        && text.len() > 0))
                    &&& (out@.len() == 0 ==> text.len() == 0)
                    &&& out@.len() <= 1
                })
                &&& (final(self).generated() == final(self).budget() ==> {
                    &&& final(self).is_finished()
                    &&& final(self).buffered() == Seq::<u8>::empty()
                    &&& out@.last() == (StreamToken::Truncated {
                        tokens_generated: final(self).generated(),
                        max_tokens: final(self).budget(),
                    })
                    &&& (text.len() > 0 ==> (out@[0] matches StreamToken::Token(t) && t@ == text))
                    &&& (text.len() > 0 && valid_utf8(rest) && rest.len() > 0 ==> out@.len() == 3
                        && (out@[1] matches StreamToken::Token(u) && u@ == decode_utf8(rest)))
                    &&& (text.len() > 0 && !(valid_utf8(rest) && rest.len() > 0) ==> out@.len()
                        == 2)
                    &&& (text.len() == 0 && valid_utf8(rest) && rest.len() > 0 ==> out@.len() == 2
                        && (out@[0] matches StreamToken::Token(u) && u@ == decode_utf8(rest)))
                    &&& (text.len() == 0 && !(valid_utf8(rest) && rest.len() > 0) ==> out@.len()
                        == 1)
                })
            }),
    {
        if stop || matches!(ev, DecodeStep::EndMarker) {
            let flushed = self.chunks_buf.flush();
            let mut out: Vec<StreamToken> = Vec::new();
            match flushed {
                Some(s) => {
                    out.push(StreamToken::Token(s));
                },
                None => {},
            }
            out.push(StreamToken::Done);
            self.finished = true;
            proof {
                assert(out@.last() == StreamToken::Done);
            }
            return out;
        }
        let bytes = match ev {
            DecodeStep::Sampled(b) => b,
            DecodeStep::EndMarker => Vec::new(),
        };
        self.tokens_generated = self.tokens_generated + 1;
        let mut out: Vec<StreamToken> = Vec::new();
        match self.chunks_buf.push_bytes(bytes.as_slice()) {
            Some(s) => {
                out.push(StreamToken::Token(s));
            },
            None => {},
        }
        if self.tokens_generated == self.max_tokens {
            match self.chunks_buf.flush() {
                Some(s) => {
                    out.push(StreamToken::Token(s));
                },
                None => {},
            }
            out.push(
                StreamToken::Truncated {
                    tokens_generated: self.tokens_generated,
                    max_tokens: self.max_tokens,
                },
            );
            self.finished = true;
        }
        out
    }

    /// End the stream from outside a step: flush and emit `Done`. Serves
    /// both the end-of-stream after a cooperative stop observed between
    /// steps and a receiver that went away.
    pub fn finish(&mut self) -> (out: Vec<StreamToken>)
        requires
            !old(self).is_finished(),
        ensures
            final(self).is_finished(),
            final(self).buffered() == Seq::<u8>::empty(),
            out@.last() == StreamToken::Done,
            valid_utf8(old(self).buffered()) && old(self).buffered().len() > 0 ==> out@.len() == 2
                && (out@[0] matches StreamToken::Token(t) && t@ == decode_utf8(
                old(self).buffered(),
            )),
            !(valid_utf8(old(self).buffered()) && old(self).buffered().len() > 0) ==> out@.len()
                == 1,
    {
        let flushed = self.chunks_buf.flush();
        let mut out: Vec<StreamToken> = Vec::new();
        match flushed {
            Some(s) => {
                out.push(StreamToken::Token(s));
            },
            None => {},
        }
        out.push(StreamToken::Done);
        self.finished = true;
        out
    }
}

} // verus!
