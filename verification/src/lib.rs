//! Contracts of a small inference engine: cache layouts, model artifact
//! parsing, shape checks and reference kernels.

pub mod activation;
pub mod activation_laws;
pub mod arith;
pub mod attention;
pub mod attention_laws;
pub mod attention_modes;
pub mod attention_sum_laws;
pub mod block_laws;
pub mod bytes;
pub mod config;
pub mod conv;
pub mod conv_laws;
pub mod cpu_backend;
pub mod decoder;
pub mod dense;
pub mod error;
pub mod expr;
pub mod gguf;
pub mod gguf_laws;
pub mod gguf_values;
pub mod gguf_write_laws;
pub mod grid;
pub mod half;
pub mod k_blocks;
pub mod k_quant;
pub mod k_dot_laws;
pub mod k_quant_laws;
pub mod k_row_laws;
pub mod kv_cache;
pub mod lane_laws;
pub mod lanes;
pub mod launch;
pub mod layout;
pub mod linear;
pub mod linear_laws;
pub mod loading_laws;
pub mod lstm_laws;
pub mod mlp;
pub mod modes;
pub mod norm_laws;
pub mod norms;
pub mod partition;
pub mod pooling;
pub mod position_laws;
pub mod reals;
pub mod recurrent;
pub mod relpos;
pub mod rope;
pub mod safetensors_header;
pub mod safetensors_values;
pub mod shapes;
pub mod softmax;
pub mod storage_laws;
pub mod tensor;
pub mod text;
pub mod types;
pub mod values;
