use vstd::prelude::*;

verus! {

/// Where a tensor or a cache lives.
#[derive(Debug, Clone, PartialEq, Eq, Structural)]
pub enum Device {
    Cpu,
    Gpu { ordinal: usize },
}

/// The element type of a tensor.
#[derive(Debug, Clone, Copy, PartialEq, Eq, Structural)]
pub enum DType {
    F32,
    F16,
    BF16,
    Q4,
    Q8,
}

/// A vocabulary token identifier. Wraps `u32` to prevent mixing with other integers.
#[derive(Debug, Clone, Copy, PartialEq, Eq, Hash, Structural)]
pub struct TokenId(pub u32);

/// Length of a sequence (number of tokens).
#[derive(Debug, Clone, Copy, PartialEq, Eq, Hash, Structural)]
pub struct SeqLen(pub usize);

/// Number of concurrent requests in a batch.
#[derive(Debug, Clone, Copy, PartialEq, Eq, Hash, Structural)]
pub struct BatchSize(pub usize);

/// Maximum context length supported by a model or requested by a caller.
#[derive(Debug, Clone, Copy, PartialEq, Eq, Hash, Structural)]
pub struct ContextLen(pub usize);

/// Full model configuration as loaded from a metadata artifact. The two
/// floating-point settings are kept as their IEEE 754 double bit patterns.
#[derive(Debug, Clone, PartialEq, Eq)]
pub struct ModelMetadata {
    pub architecture: String,
    pub vocab_size: usize,
    pub num_hidden_layers: usize,
    pub hidden_size: usize,
    pub intermediate_size: usize,
    pub num_attention_heads: usize,
    pub num_key_value_heads: usize,
    pub head_dim: usize,
    pub context_length: usize,
    pub rope_theta_bits: u64,
    pub rms_norm_eps_bits: u64,
    pub dtype: DType,
    pub tokenizer_model_hint: Option<String>,
}

/// How a generation call is to be run; the temperature is an IEEE 754 single
/// bit pattern.
#[derive(Debug, Clone, PartialEq, Eq, Structural)]
pub struct GenerationOptions {
    pub max_new_tokens: usize,
    pub temperature_bits: Option<u32>,
}

impl Default for GenerationOptions {
    fn default() -> (r: Self)
        ensures
            r == (GenerationOptions { max_new_tokens: 256, temperature_bits: None }),
    {
        GenerationOptions { max_new_tokens: 256, temperature_bits: None }
    }
}

/// The result of a generation call: the tokens the runtime produced, in
/// emission order. Token-level, not text-level: detokenization is the caller's
/// job.
#[derive(Debug, Clone, PartialEq, Eq)]
pub struct GenerateResponse {
    pub tokens: Vec<TokenId>,
}

} // verus!
