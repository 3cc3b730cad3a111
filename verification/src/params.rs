//! Generation parameters and the sampler configuration derived from them.
//!
//! Fractional parameters are carried in hundredths so that the library's
//! contracts stay over integers: a temperature of 0.7 is stored as 70.
//! A temperature below 0.01 (stored value 0) selects greedy sampling.

use vstd::prelude::*;

verus! {

/// Parameters of one generation request. `seed == 0` means a fresh seed is
/// drawn at generation start.
#[derive(Debug, Clone, PartialEq, Eq)]
pub struct GenerationParams {
    /// Output budget in tokens; at least 1.
    pub max_tokens: u32,
    /// Sampling temperature in hundredths; below 1 selects greedy sampling.
    pub temperature_hundredths: u32,
    /// Top-k cutoff; meaningful only when sampling is not greedy.
    pub top_k: u32,
    /// Top-p (nucleus) cutoff in hundredths, in (0, 100].
    pub top_p_hundredths: u32,
    /// Repeat penalty in hundredths; 100 is no penalty.
    pub repeat_penalty_hundredths: u32,
    /// Sampling seed; 0 draws a fresh seed per call.
    pub seed: u32,
    /// Upper bound on the context size for this request, in tokens.
    pub max_context_size: u32,
}

impl Default for GenerationParams {
    /// Balanced defaults: 4K output inside a 16K context, temperature 0.7.
    fn default() -> (r: Self)
        ensures
            r == GenerationParams::spec_default(),
    {
        GenerationParams {
            max_tokens: 4096,
            temperature_hundredths: 70,
            top_k: 40,
            top_p_hundredths: 95,
            repeat_penalty_hundredths: 110,
            seed: 0,
            max_context_size: 16384,
        }
    }
}

impl GenerationParams {
    /// The value `Default::default` returns.
    pub open spec fn spec_default() -> GenerationParams {
        GenerationParams {
            max_tokens: 4096,
            temperature_hundredths: 70,
            top_k: 40,
            top_p_hundredths: 95,
            repeat_penalty_hundredths: 110,
            seed: 0,
            max_context_size: 16384,
        }
    }

    /// Greedy, short-context preset.
    pub fn fast() -> (r: Self)
        ensures
            r.max_tokens == 2048,
            r.temperature_hundredths == 0,
            r.top_k == 1,
            r.top_p_hundredths == 100,
            r.repeat_penalty_hundredths == 100,
            r.seed == 0,
            r.max_context_size == 4096,
    {
        GenerationParams {
            max_tokens: 2048,
            temperature_hundredths: 0,
            top_k: 1,
            top_p_hundredths: 100,
            repeat_penalty_hundredths: 100,
            seed: 0,
            max_context_size: 4096,
        }
    }

    /// Middle-of-the-road preset.
    pub fn balanced() -> (r: Self)
        ensures
            r.max_tokens == 4096,
            r.temperature_hundredths == 70,
            r.top_k == 40,
            r.top_p_hundredths == 90,
            r.repeat_penalty_hundredths == 110,
            r.seed == 0,
            r.max_context_size == 8192,
    {
        GenerationParams {
            max_tokens: 4096,
            temperature_hundredths: 70,
            top_k: 40,
            top_p_hundredths: 90,
            repeat_penalty_hundredths: 110,
            seed: 0,
            max_context_size: 8192,
        }
    }

    /// Larger budget, higher temperature preset.
    pub fn quality() -> (r: Self)
        ensures
            r.max_tokens == 8192,
            r.temperature_hundredths == 80,
            r.top_k == 50,
            r.top_p_hundredths == 95,
            r.repeat_penalty_hundredths == 110,
            r.seed == 0,
            r.max_context_size == 16384,
    {
        GenerationParams {
            max_tokens: 8192,
            temperature_hundredths: 80,
            top_k: 50,
            top_p_hundredths: 95,
            repeat_penalty_hundredths: 110,
            seed: 0,
            max_context_size: 16384,
        }
    }

    /// Whether this request samples greedily (temperature below 0.01).
    pub open spec fn spec_is_greedy(&self) -> bool {
        self.temperature_hundredths < 1
    }
}

/// The sampler configuration built for one generation: greedy argmax when
/// the temperature is below 0.01, otherwise the pipeline
/// top-k, then top-p, then temperature, then a seeded categorical draw.
#[derive(Debug, Clone, PartialEq, Eq)]
pub enum SamplerPlan {
    /// Greedy argmax; consults no seed.
    Greedy,
    /// The seeded sampling pipeline, applied in field order.
    Pipeline {
        top_k: u32,
        top_p_hundredths: u32,
        temperature_hundredths: u32,
        seed: u32,
    },
}

/// The sampler configuration for `params`, where `fresh_seed` is the entropy
/// drawn for this call: consulted only when `params.seed == 0`.
pub open spec fn spec_sampler_plan(params: GenerationParams, fresh_seed: u32) -> SamplerPlan {
    if params.spec_is_greedy() {
        SamplerPlan::Greedy
    } else {
        SamplerPlan::Pipeline {
            top_k: params.top_k,
            top_p_hundredths: params.top_p_hundredths,
            temperature_hundredths: params.temperature_hundredths,
            seed: if params.seed == 0 {
                fresh_seed
            } else {
                params.seed
            },
        }
    }
}

/// Build the sampler configuration for one generation.
pub fn sampler_plan(params: &GenerationParams, fresh_seed: u32) -> (r: SamplerPlan)
    ensures
        r == spec_sampler_plan(*params, fresh_seed),
{
    if params.temperature_hundredths < 1 {
        SamplerPlan::Greedy
    } else {
        SamplerPlan::Pipeline {
            top_k: params.top_k,
            top_p_hundredths: params.top_p_hundredths,
            temperature_hundredths: params.temperature_hundredths,
            seed: if params.seed == 0 {
                fresh_seed
            } else {
                params.seed
            },
        }
    }
}

/// Sampler determinism: for a fixed seed other than zero, and likewise for
/// any greedy request, the sampler configuration does not depend on the
/// entropy drawn at generation start, so two calls with identical inputs
/// configure identical samplers.
pub proof fn lemma_sampler_determinism(params: GenerationParams, entropy1: u32, entropy2: u32)
    requires
        !params.spec_is_greedy() ==> params.seed != 0,
    ensures
        spec_sampler_plan(params, entropy1) == spec_sampler_plan(params, entropy2),
{
}

} // verus!
