//! Context sizing and reuse decisions.
//!
//! A context (the KV cache) is expensive to build, so its size is snapped
//! up to a standard value and an existing context is reused whenever it is
//! large enough for the next generation.

use vstd::prelude::*;

verus! {

/// The size the context is given for a request that needs `needed` tokens,
/// bounded by `max`: the smallest standard size that covers `needed` and
/// still fits under `max`; if no standard size fits, `needed` clamped to
/// `max`.
pub open spec fn spec_pick_context_size(needed: u32, max: u32) -> u32 {
    if 2048 >= needed && 2048 <= max {
        2048
    } else if 4096 >= needed && 4096 <= max {
        4096
    } else if 8192 >= needed && 8192 <= max {
        8192
    } else if 16384 >= needed && 16384 <= max {
        16384
    } else if 32768 >= needed && 32768 <= max {
        32768
    } else if 65536 >= needed && 65536 <= max {
        65536
    } else if 131072 >= needed && 131072 <= max {
        131072
    } else if needed <= max {
        needed
    } else {
        max
    }
}

/// Snap a needed size up to a standard context size, for better reuse.
pub fn pick_context_size(needed: u32, max: u32) -> (r: u32)
    ensures
        r == spec_pick_context_size(needed, max),
        r <= max || needed > max,
        needed <= max ==> r >= needed,
{
    let sizes: [u32; 7] = [2048, 4096, 8192, 16384, 32768, 65536, 131072];
    let mut i: usize = 0;
    while i < 7
        invariant
            i <= 7,
            forall|j: int| 0 <= j < i ==> !(sizes@[j] >= needed && sizes@[j] <= max),
            sizes@ =~= spec_standard_size_seq(),
        decreases 7 - i,
    {
        let s = sizes[i];
        if s >= needed && s <= max {
            return s;
        }
        i = i + 1;
    }
    if needed <= max {
        needed
    } else {
        max
    }
}

pub open spec fn spec_standard_size_seq() -> Seq<u32> {
    seq![2048u32, 4096u32, 8192u32, 16384u32, 32768u32, 65536u32, 131072u32]
}

/// The batch capacity chosen for a prompt: a step function of the prompt
/// length, clamped to the context size.
pub open spec fn spec_optimal_batch(n_ctx: u32, prompt_len: u32) -> u32 {
    let base: u32 = if prompt_len < 512 {
        2048
    } else if prompt_len < 2048 {
        1024
    } else if prompt_len < 4096 {
        512
    } else {
        256
    };
    if base <= n_ctx {
        base
    } else {
        n_ctx
    }
}

/// Batch capacity for a prompt of `prompt_len` tokens in a context of
/// `n_ctx` tokens.
pub fn calculate_optimal_batch(n_ctx: u32, prompt_len: u32) -> (r: u32)
    ensures
        r == spec_optimal_batch(n_ctx, prompt_len),
{
    let base: u32 = if prompt_len < 512 {
        2048
    } else if prompt_len < 2048 {
        1024
    } else if prompt_len < 4096 {
        512
    } else {
        256
    };
    if base <= n_ctx {
        base
    } else {
        n_ctx
    }
}

/// The sizes a built context actually has: its token capacity and its batch
/// capacity.
#[derive(Debug, Clone, Copy, PartialEq, Eq, Structural)]
pub struct CtxConfig {
    /// Maximum context length in tokens.
    pub n_ctx: u32,
    /// Batch capacity in tokens.
    pub n_batch: u32,
}

/// The context-size ceiling for a request: the smaller of what the request
/// asks for and what the model was trained with.
pub open spec fn spec_effective_max(max_context_size: u32, train_ctx: u32) -> u32 {
    if max_context_size <= train_ctx {
        max_context_size
    } else {
        train_ctx
    }
}

/// The smaller of the requested and the trained context size.
pub fn effective_max(max_context_size: u32, train_ctx: u32) -> (r: u32)
    ensures
        r == spec_effective_max(max_context_size, train_ctx),
{
    if max_context_size <= train_ctx {
        max_context_size
    } else {
        train_ctx
    }
}

/// The context size a request needs before snapping: prompt plus output
/// budget, at least prompt plus 256, and at most `effective_max`.
pub open spec fn spec_needed_ctx(prompt_len: u32, max_tokens: u32, effective_max: u32) -> u32 {
    let want: int = prompt_len + max_tokens;
    let a: int = if want <= effective_max {
        want
    } else {
        effective_max as int
    };
    let b: int = if a >= prompt_len + 256 {
        a
    } else {
        prompt_len + 256
    };
    let c: int = if b <= effective_max {
        b
    } else {
        effective_max as int
    };
    c as u32
}

/// Tokens of context needed for a prompt of `prompt_len` with an output
/// budget of `max_tokens`, under the ceiling `effective_max`.
pub fn needed_ctx(prompt_len: u32, max_tokens: u32, effective_max: u32) -> (r: u32)
    ensures
        r == spec_needed_ctx(prompt_len, max_tokens, effective_max),
{
    let em: u64 = effective_max as u64;
    let want: u64 = prompt_len as u64 + max_tokens as u64;
    let a: u64 = if want <= em {
        want
    } else {
        em
    };
    let floor: u64 = prompt_len as u64 + 256;
    let b: u64 = if a >= floor {
        a
    } else {
        floor
    };
    let c: u64 = if b <= em {
        b
    } else {
        em
    };
    c as u32
}

/// The reuse rule: an existing context serves the next generation if and
/// only if both its token capacity and its batch capacity are at least what
/// the generation needs.
pub open spec fn spec_reuse_context(
    stored: Option<CtxConfig>,
    needed_n_ctx: u32,
    needed_batch: u32,
) -> bool {
    stored matches Some(c) && c.n_ctx >= needed_n_ctx && c.n_batch >= needed_batch
}

/// How the worker obtains a ready context for one generation: either the
/// stored one is kept, or it is dropped and exactly one new one is built.
#[derive(Debug, Clone, Copy, PartialEq, Eq, Structural)]
pub struct ContextPlan {
    /// True when the stored context is kept; false when it is rebuilt.
    pub reuse: bool,
    /// The configuration the generation runs with: the stored one when
    /// `reuse`, the newly built one otherwise.
    pub config: CtxConfig,
}

/// The plan for one generation: reuse exactly when the stored context's
/// capacities both suffice, else one new context with the snapped size and
/// the batch the prompt calls for.
pub open spec fn spec_plan_context(
    stored: Option<CtxConfig>,
    prompt_len: u32,
    max_tokens: u32,
    max_context_size: u32,
    train_ctx: u32,
) -> ContextPlan {
    let em = spec_effective_max(max_context_size, train_ctx);
    let needed = spec_needed_ctx(prompt_len, max_tokens, em);
    let n_ctx = spec_pick_context_size(needed, em);
    let n_batch = spec_optimal_batch(n_ctx, prompt_len);
    if spec_reuse_context(stored, n_ctx, n_batch) {
        ContextPlan { reuse: true, config: stored->Some_0 }
    } else {
        ContextPlan { reuse: false, config: CtxConfig { n_ctx, n_batch } }
    }
}

/// Decide whether the stored context can serve a generation that needs
/// `prompt_len` prompt tokens under `params`, and with what configuration.
/// The KV cache is cleared before every generation either way; reuse saves
/// only the allocation.
pub fn plan_context(
    stored: &Option<CtxConfig>,
    prompt_len: u32,
    max_tokens: u32,
    max_context_size: u32,
    train_ctx: u32,
) -> (r: ContextPlan)
    ensures
        ({
            let em = spec_effective_max(max_context_size, train_ctx);
            let needed = spec_needed_ctx(prompt_len, max_tokens, em);
            let n_ctx = spec_pick_context_size(needed, em);
            let n_batch = spec_optimal_batch(n_ctx, prompt_len);
            &&& r == spec_plan_context(*stored, prompt_len, max_tokens, max_context_size, train_ctx)
            &&& r.reuse == spec_reuse_context(*stored, n_ctx, n_batch)
            &&& (r.reuse ==> *stored == Some(r.config))
            &&& (!r.reuse ==> r.config == CtxConfig { n_ctx, n_batch })
        }),
{
    let em = effective_max(max_context_size, train_ctx);
    let needed = needed_ctx(prompt_len, max_tokens, em);
    let n_ctx = pick_context_size(needed, em);
    let n_batch = calculate_optimal_batch(n_ctx, prompt_len);
    match stored {
        Some(c) => {
            if c.n_ctx >= n_ctx && c.n_batch >= n_batch {
                ContextPlan { reuse: true, config: *c }
            } else {
                ContextPlan { reuse: false, config: CtxConfig { n_ctx, n_batch } }
            }
        },
        None => ContextPlan { reuse: false, config: CtxConfig { n_ctx, n_batch } },
    }
}

/// Context reuse: when the next generation's required capacities are both
/// within what the stored context actually has, the stored context is kept
/// and nothing is rebuilt.
pub proof fn lemma_context_reuse(stored: CtxConfig, needed_n_ctx: u32, needed_batch: u32)
    requires
        needed_n_ctx <= stored.n_ctx,
        needed_batch <= stored.n_batch,
    ensures
        spec_reuse_context(Some(stored), needed_n_ctx, needed_batch),
{
}

/// Context rebuild: when the next generation's required token capacity or
/// batch capacity strictly exceeds what the stored context has, the stored
/// context is not reused, so it is dropped and exactly one new context is
/// built.
pub proof fn lemma_context_rebuild(stored: CtxConfig, needed_n_ctx: u32, needed_batch: u32)
    requires
        needed_n_ctx > stored.n_ctx || needed_batch > stored.n_batch,
    ensures
        !spec_reuse_context(Some(stored), needed_n_ctx, needed_batch),
{
}

/// The thread count the worker computes once at start: an estimate of the
/// physical cores (half the logical count), at least 2 and at most 16.
pub open spec fn spec_optimal_threads(logical: i32) -> i32 {
    let physical: int = if 2 >= logical / 2 {
        2
    } else {
        logical / 2
    };
    if physical <= 16 {
        physical as i32
    } else {
        16
    }
}

/// Thread count from the logical core count.
pub fn optimal_threads(logical: i32) -> (r: i32)
    requires
        logical >= 0,
    ensures
        r == spec_optimal_threads(logical),
{
    let physical: i32 = if 2 >= logical / 2 {
        2
    } else {
        logical / 2
    };
    if physical <= 16 {
        physical
    } else {
        16
    }
}

/// Distance between two sizes.
pub open spec fn spec_dist(a: u32, b: u32) -> int {
    if a >= b {
        a - b
    } else {
        b - a
    }
}

/// The standard context size closest to `wanted`; on a tie, the smaller one.
pub fn snap_context_size(wanted: u32) -> (r: u32)
    ensures
        spec_standard_size_seq().contains(r),
        forall|j: int|
            0 <= j < spec_standard_size_seq().len() ==> spec_dist(r, wanted) <= spec_dist(
                spec_standard_size_seq()[j],
                wanted,
            ),
        forall|j: int|
            0 <= j < spec_standard_size_seq().len() && spec_dist(
                spec_standard_size_seq()[j],
                wanted,
            ) == spec_dist(r, wanted) ==> r <= spec_standard_size_seq()[j],
{
    let sizes: [u32; 7] = [2048, 4096, 8192, 16384, 32768, 65536, 131072];
    proof {
        assert(sizes@ =~= spec_standard_size_seq());
    }
    let mut best: u32 = sizes[0];
    let mut i: usize = 1;
    while i < 7
        invariant
            1 <= i <= 7,
            sizes@ =~= spec_standard_size_seq(),
            exists|k: int| 0 <= k < i && best == sizes@[k],
            forall|j: int| 0 <= j < i ==> spec_dist(best, wanted) <= spec_dist(sizes@[j], wanted),
            forall|j: int|
                0 <= j < i && spec_dist(sizes@[j], wanted) == spec_dist(best, wanted) ==> best
                    <= sizes@[j],
        decreases 7 - i,
    {
        let s = sizes[i];
        let d_s: u32 = if s >= wanted {
            s - wanted
        } else {
            wanted - s
        };
        let d_b: u32 = if best >= wanted {
            best - wanted
        } else {
            wanted - best
        };
        proof {
            assert(forall|j1: int, j2: int|
                0 <= j1 < j2 < 7 ==> sizes@[j1] < sizes@[j2]);
        }
        if d_s < d_b {
            best = s;
        }
        i = i + 1;
    }
    proof {
        assert(spec_standard_size_seq().contains(best));
    }
    best
}

} // verus!
