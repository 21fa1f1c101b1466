use ocelotl::config::{
    document_error, extract_missing_field, hf_model_info, metadata_gate, HfConfig,
};
use ocelotl::error::OcelotlError;
use ocelotl::types::DType;
use ocelotl::values::SupportedDtype;

fn tiny_config(model_type: &str, torch_dtype: &str) -> HfConfig {
    HfConfig {
        model_type: model_type.to_string(),
        vocab_size: 1,
        hidden_size: 1,
        intermediate_size: 1,
        num_hidden_layers: 1,
        num_attention_heads: 1,
        num_key_value_heads: 1,
        max_position_embeddings: 1,
        rope_theta_bits: 1.0_f64.to_bits(),
        rms_norm_eps_bits: 1e-6_f64.to_bits(),
        torch_dtype: torch_dtype.to_string(),
        tie_word_embeddings: false,
    }
}

fn qwen2_5_config() -> HfConfig {
    HfConfig {
        model_type: "qwen2".to_string(),
        vocab_size: 151_936,
        hidden_size: 896,
        intermediate_size: 4_864,
        num_hidden_layers: 24,
        num_attention_heads: 14,
        num_key_value_heads: 2,
        max_position_embeddings: 32_768,
        rope_theta_bits: 1_000_000.0_f64.to_bits(),
        rms_norm_eps_bits: 1e-6_f64.to_bits(),
        torch_dtype: "bfloat16".to_string(),
        tie_word_embeddings: true,
    }
}

#[test]
fn load_metadata_rejects_unknown_architecture_with_typed_unsupported_error() {
    let err = metadata_gate("unknown-transformer", "f32")
        .expect_err("loading an unknown architecture must fail with a typed error");

    match err {
        OcelotlError::Unsupported(unsupported) => {
            assert_eq!(unsupported.feature, "architecture");
            assert_eq!(
                unsupported.requested.as_deref(),
                Some("unknown-transformer")
            );
            assert!(unsupported.supported.iter().any(|s| s == "qwen2"));
        }
        other => panic!("expected Unsupported for unknown architecture, got {other:?}"),
    }
}

#[test]
fn load_metadata_rejects_unknown_dtype_with_typed_unsupported_error() {
    let err = metadata_gate("qwen2", "f8")
        .expect_err("loading an unknown dtype must fail with a typed error");

    match err {
        OcelotlError::Unsupported(unsupported) => {
            assert_eq!(unsupported.feature, "dtype");
            assert_eq!(unsupported.requested.as_deref(), Some("f8"));
            assert!(unsupported.supported.iter().any(|s| s == "f32"));
        }
        other => panic!("expected Unsupported for unknown dtype, got {other:?}"),
    }
}

#[test]
fn metadata_gate_accepts_a_supported_document() {
    metadata_gate("qwen2", "f32").expect("supported");
}

#[test]
fn load_metadata_rejects_missing_required_field_with_invalid_model_error() {
    let path = "invalid_missing_vocab_size.json";
    let err = document_error(path, "metadata", "missing field `vocab_size` at line 14 column 1");

    match err {
        OcelotlError::InvalidModel(invalid) => {
            assert_eq!(invalid.path.as_deref(), Some(path));
            assert_eq!(invalid.field.as_deref(), Some("vocab_size"));
            assert!(invalid.message.contains("vocab_size"));
        }
        other => panic!("expected InvalidModel for missing field, got {other:?}"),
    }
}

#[test]
fn parse_hf_config_maps_real_qwen2_5_config_into_model_metadata() {
    let info = hf_model_info("config.json", qwen2_5_config()).expect("config must be accepted");
    let m = &info.metadata;

    assert_eq!(m.architecture, "qwen2");
    assert_eq!(m.vocab_size, 151_936);
    assert_eq!(m.num_hidden_layers, 24);
    assert_eq!(m.hidden_size, 896);
    assert_eq!(m.intermediate_size, 4_864);
    assert_eq!(m.num_attention_heads, 14);
    assert_eq!(m.num_key_value_heads, 2);
    assert_eq!(m.head_dim, 64);
    assert_eq!(m.context_length, 32_768);
    assert!((f64::from_bits(m.rope_theta_bits) - 1_000_000.0_f64).abs() < 1e-6);
    assert!((f64::from_bits(m.rms_norm_eps_bits) - 1e-6_f64).abs() < 1e-12);
    assert_eq!(m.dtype, DType::BF16);
    assert_eq!(m.tokenizer_model_hint, None);
}

#[test]
fn parse_hf_config_carries_tie_word_embeddings_true_for_qwen2_5_0_5b_instruct() {
    let info = hf_model_info("config.json", qwen2_5_config()).expect("config must be accepted");
    assert!(
        info.tie_word_embeddings,
        "Qwen2.5-0.5B-Instruct uses tied embeddings; got {}",
        info.tie_word_embeddings,
    );
}

#[test]
fn parse_hf_config_rejects_unknown_model_type_with_unsupported() {
    let err = hf_model_info("config.json", tiny_config("definitely-not-real", "float32"))
        .expect_err("unknown model_type must fail");
    match err {
        OcelotlError::Unsupported(u) => {
            assert_eq!(u.feature, "architecture");
            assert_eq!(u.requested.as_deref(), Some("definitely-not-real"));
            assert!(u.supported.iter().any(|s| s == "qwen2"));
        }
        other => panic!("expected Unsupported, got {other:?}"),
    }
}

#[test]
fn parse_hf_config_rejects_unknown_torch_dtype_with_unsupported() {
    let err = hf_model_info("config.json", tiny_config("qwen2", "float64"))
        .expect_err("unknown torch_dtype must fail");
    match err {
        OcelotlError::Unsupported(u) => {
            assert_eq!(u.feature, "torch_dtype");
            assert_eq!(u.requested.as_deref(), Some("float64"));
            assert!(u.supported.iter().any(|s| s == "float32"));
        }
        other => panic!("expected Unsupported, got {other:?}"),
    }
}

#[test]
fn parse_hf_config_rejects_non_divisible_head_dim_with_invalid_model() {
    let mut cfg = tiny_config("qwen2", "float32");
    cfg.hidden_size = 100;
    cfg.num_attention_heads = 7;
    let err = hf_model_info("config.json", cfg).expect_err("non-divisible head dim must fail");
    match err {
        OcelotlError::InvalidModel(invalid) => {
            assert_eq!(invalid.field.as_deref(), Some("head_dim"));
            assert!(
                invalid.message.contains("100") && invalid.message.contains('7'),
                "expected derivation context in message, got {:?}",
                invalid.message
            );
        }
        other => panic!("expected InvalidModel, got {other:?}"),
    }
}

#[test]
fn a_configuration_without_heads_has_no_head_dim() {
    let mut cfg = tiny_config("qwen2", "float32");
    cfg.num_attention_heads = 0;
    let err = hf_model_info("config.json", cfg).expect_err("no heads");
    assert!(matches!(err, OcelotlError::InvalidModel(_)));
}

#[test]
fn supported_dtype_converts_into_core_dtype() {
    assert_eq!(DType::from(SupportedDtype::F32), DType::F32);
    assert_eq!(DType::from(SupportedDtype::F16), DType::F16);
    assert_eq!(DType::from(SupportedDtype::BF16), DType::BF16);
}

#[test]
fn extract_missing_field_returns_none_for_unrelated_message() {
    assert_eq!(extract_missing_field("some other error text"), None);
}

#[test]
fn extract_missing_field_extracts_name_from_serde_message() {
    let message = "failed to parse metadata JSON: missing field `vocab_size` at line 1 column 50";
    assert_eq!(
        extract_missing_field(message).as_deref(),
        Some("vocab_size")
    );
}

#[test]
fn extract_missing_field_needs_the_closing_quote() {
    assert_eq!(extract_missing_field("missing field `vocab_size"), None);
}

#[test]
fn an_unsupported_architecture_is_refused_before_anything_else() {
    let plain = hf_model_info("a.json", tiny_config("other", "float32")).expect_err("refused");
    let mut odd = tiny_config("other", "float32");
    odd.hidden_size = 100;
    odd.num_attention_heads = 7;
    let refused = hf_model_info("b.json", odd).expect_err("refused");
    match (plain, refused) {
        (OcelotlError::Unsupported(a), OcelotlError::Unsupported(b)) => {
            assert_eq!(a.feature, "architecture");
            assert_eq!(a.feature, b.feature);
            assert_eq!(a.requested, b.requested);
            assert_eq!(a.supported, b.supported);
        }
        other => panic!("expected two Unsupported, got {other:?}"),
    }
}
