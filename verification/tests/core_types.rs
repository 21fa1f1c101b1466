use ocelotl::error::{
    InvalidModelError, InvalidRequestError, IoError, KernelError, OcelotlError, RuntimeError,
    TokenizerError, UnsupportedError,
};
use ocelotl::kv_cache::{KvCacheLayout, PagedKvCacheLayout};
use ocelotl::types::{
    BatchSize, ContextLen, DType, Device, GenerateResponse, GenerationOptions, SeqLen, TokenId,
};

#[test]
fn unsupported_error_display_mentions_feature_requested_and_supported() {
    let err = OcelotlError::Unsupported(UnsupportedError {
        feature: "rope_scaling".to_string(),
        requested: Some("yarn".to_string()),
        supported: vec!["linear".to_string(), "dynamic".to_string()],
    });

    let rendered = err.to_string();

    assert!(rendered.contains("rope_scaling"));
    assert!(rendered.contains("yarn"));
    assert!(rendered.contains("linear") && rendered.contains("dynamic"));
    assert_eq!(
        rendered,
        "unsupported feature `rope_scaling` (requested `yarn`): supported = [linear, dynamic]"
    );
}

#[test]
fn unsupported_error_can_be_constructed_with_no_requested_value() {
    let err = OcelotlError::Unsupported(UnsupportedError {
        feature: "paged_kv_cache".to_string(),
        requested: None,
        supported: vec!["contiguous".to_string()],
    });

    let rendered = err.to_string();

    assert!(rendered.contains("paged_kv_cache"));
    assert!(rendered.contains("contiguous"));
    assert!(!rendered.contains("requested"));
}

#[test]
fn invalid_model_error_display_includes_path_field_and_message() {
    let err = OcelotlError::InvalidModel(InvalidModelError {
        path: Some("/models/qwen.safetensors".to_string()),
        field: Some("num_hidden_layers".to_string()),
        message: "expected positive integer".to_string(),
    });

    let rendered = err.to_string();

    assert!(rendered.contains("qwen.safetensors"));
    assert!(rendered.contains("num_hidden_layers"));
    assert!(rendered.contains("expected positive integer"));
    assert_eq!(
        rendered,
        "invalid model artifact at `/models/qwen.safetensors` (field `num_hidden_layers`): expected positive integer"
    );
}

#[test]
fn invalid_model_error_works_with_no_path_or_field() {
    let err = OcelotlError::InvalidModel(InvalidModelError {
        path: None,
        field: None,
        message: "malformed header".to_string(),
    });

    assert!(err.to_string().contains("malformed header"));
    assert_eq!(err.to_string(), "invalid model artifact: malformed header");
    assert!(err.source().is_none());
}

#[test]
fn invalid_request_error_display_includes_field_and_message() {
    let err = OcelotlError::InvalidRequest(InvalidRequestError {
        field: "max_new_tokens".to_string(),
        message: "must be greater than zero".to_string(),
    });

    let rendered = err.to_string();

    assert!(rendered.contains("max_new_tokens"));
    assert!(rendered.contains("must be greater than zero"));
}

#[test]
fn tokenizer_error_display_includes_message() {
    let err = OcelotlError::Tokenizer(TokenizerError {
        message: "unknown special token <|im_start|>".to_string(),
        source: None,
    });

    assert!(err.to_string().contains("unknown special token"));
}

#[test]
fn tokenizer_error_preserves_source_when_present() {
    let inner = std::io::Error::new(std::io::ErrorKind::InvalidData, "bad utf8");
    let err = OcelotlError::Tokenizer(TokenizerError {
        message: "failed to load tokenizer".to_string(),
        source: Some(inner.to_string()),
    });

    assert!(err.source().is_some());
    assert_eq!(err.source().unwrap(), "bad utf8");
}

#[test]
fn kernel_error_display_includes_backend_and_message() {
    let err = OcelotlError::Kernel(KernelError {
        backend: "cpu".to_string(),
        message: "unsupported stride layout".to_string(),
    });

    let rendered = err.to_string();

    assert!(rendered.contains("cpu"));
    assert!(rendered.contains("unsupported stride layout"));
}

#[test]
fn runtime_error_display_includes_message() {
    let err = OcelotlError::Runtime(RuntimeError {
        message: "KV cache allocation failed".to_string(),
    });

    assert!(err.to_string().contains("KV cache allocation failed"));
}

#[test]
fn io_error_display_includes_path() {
    let source = std::io::Error::new(std::io::ErrorKind::NotFound, "file missing");
    let err = OcelotlError::Io(IoError {
        path: Some("/weights/model.safetensors".to_string()),
        source: source.to_string(),
    });

    let rendered = err.to_string();
    assert!(rendered.contains("model.safetensors"));
    assert_eq!(rendered, "IO error on `/weights/model.safetensors`: file missing");
}

#[test]
fn io_error_preserves_source() {
    let io_err = std::io::Error::new(std::io::ErrorKind::PermissionDenied, "access denied");
    let err = OcelotlError::Io(IoError {
        path: None,
        source: io_err.to_string(),
    });

    assert!(err.source().is_some());
}

#[test]
fn token_id_wraps_and_unwraps_correctly() {
    let id = TokenId(1234);
    assert_eq!(id.0, 1234);
}

#[test]
fn seq_len_wraps_and_unwraps_correctly() {
    let s = SeqLen(512);
    assert_eq!(s.0, 512);
}

#[test]
fn batch_size_wraps_and_unwraps_correctly() {
    let b = BatchSize(8);
    assert_eq!(b.0, 8);
}

#[test]
fn context_len_wraps_and_unwraps_correctly() {
    let c = ContextLen(4096);
    assert_eq!(c.0, 4096);
}

#[test]
fn generation_options_default_to_greedy_decoding() {
    let options = GenerationOptions::default();
    assert_eq!(options.max_new_tokens, 256);
    assert_eq!(options.temperature_bits, None);
}

#[test]
fn generate_response_keeps_emission_order() {
    let resp = GenerateResponse {
        tokens: vec![TokenId(7), TokenId(42), TokenId(0)],
    };
    assert_eq!(resp.clone(), resp);
    assert_eq!(resp.tokens[1], TokenId(42));
}

#[test]
fn kv_cache_layout_calculates_shape_and_bytes() {
    let layout = KvCacheLayout::new(2, 3, 5, 4, DType::F32, Device::Cpu)
        .expect("valid layout must construct");

    assert_eq!(layout.values_per_position().unwrap(), 12);
    assert_eq!(layout.values_per_layer_tensor().unwrap(), 60);
    assert_eq!(layout.values_per_all_key_tensors().unwrap(), 120);
    assert_eq!(layout.total_values().unwrap(), 240);
    assert_eq!(layout.total_bytes().unwrap(), 960);
    assert_eq!(layout.layer_position_offset(1, 2).unwrap(), 84);
}

#[test]
fn kv_cache_layout_rejects_zero_dimensions_and_bad_positions() {
    for (l, h, c, d, word) in [
        (0, 1, 1, 1, "num_layers"),
        (1, 0, 1, 1, "num_key_value_heads"),
        (1, 1, 0, 1, "capacity_tokens"),
        (1, 1, 1, 0, "head_dim"),
    ] {
        let err = KvCacheLayout::new(l, h, c, d, DType::F16, Device::Gpu { ordinal: 1 })
            .expect_err("zero dimensions must be rejected");
        assert_eq!(err.to_string(), format!("runtime error: kv cache {word} must be > 0"));
    }

    let layout = KvCacheLayout::new(2, 3, 5, 4, DType::F16, Device::Cpu).unwrap();
    assert_eq!(layout.total_bytes().unwrap(), 480);
    let err = layout.layer_position_offset(2, 0).expect_err("layer out of range");
    assert_eq!(
        err.to_string(),
        "runtime error: kv cache layer 2 out of range for 2 layers"
    );
    let err = layout.layer_position_offset(0, 5).expect_err("position out of range");
    assert_eq!(
        err.to_string(),
        "runtime error: kv cache position 5 out of range for capacity 5"
    );
}

#[test]
fn kv_cache_layout_names_the_dimensions_that_overflow() {
    let layout = KvCacheLayout::new(1, usize::MAX, 1, 2, DType::Q8, Device::Cpu).unwrap();
    let err = layout.values_per_position().expect_err("overflow must be rejected");
    assert_eq!(
        err.to_string(),
        format!(
            "runtime error: kv cache values_per_position overflowed usize for dims [{}, 2]",
            usize::MAX
        )
    );
}

#[test]
fn kv_cache_rows_do_not_overlap() {
    let layout = KvCacheLayout::new(3, 2, 4, 5, DType::Q4, Device::Cpu).unwrap();
    let row = layout.values_per_position().unwrap();
    let end = layout.values_per_all_key_tensors().unwrap();
    let mut starts = Vec::new();
    for layer in 0..3 {
        for position in 0..4 {
            starts.push(layout.layer_position_offset(layer, position).unwrap());
        }
    }
    for pair in starts.windows(2) {
        assert_eq!(pair[0] + row, pair[1]);
    }
    assert_eq!(starts[starts.len() - 1] + row, end);
}

#[test]
fn paged_kv_layout_maps_positions_and_rejects_bad_tables() {
    let base = KvCacheLayout::new(1, 2, 6, 4, DType::F32, Device::Cpu).unwrap();
    let layout = PagedKvCacheLayout::new(base, 4, 3).unwrap();

    assert_eq!(layout.required_pages_for_tokens(0).unwrap(), 0);
    assert_eq!(layout.required_pages_for_tokens(1).unwrap(), 1);
    assert_eq!(layout.required_pages_for_tokens(6).unwrap(), 2);
    assert_eq!(layout.logical_page_and_offset(5).unwrap(), (1, 1));
    assert_eq!(layout.values_per_page_tensor().unwrap(), 32);
    layout.validate_page_table(&[0, 2]).unwrap();

    let duplicate = layout
        .validate_page_table(&[1, 1])
        .expect_err("duplicate physical pages must be rejected");
    assert!(duplicate.to_string().contains("appears more than once"));

    let out_of_range = layout
        .validate_page_table(&[0, 3])
        .expect_err("out-of-range physical pages must be rejected");
    assert!(out_of_range.to_string().contains("out of range"));
}

#[test]
fn paged_kv_layout_rejects_bad_page_counts() {
    let base = KvCacheLayout::new(1, 2, 6, 4, DType::F32, Device::Cpu).unwrap();
    let err = PagedKvCacheLayout::new(base.clone(), 0, 3).expect_err("zero page size");
    assert!(err.to_string().contains("page_size_tokens must be > 0"));
    let err = PagedKvCacheLayout::new(base.clone(), 4, 0).expect_err("zero pages");
    assert!(err.to_string().contains("physical_pages must be > 0"));
    let err = PagedKvCacheLayout::new(base.clone(), 4, 1).expect_err("too few pages");
    assert_eq!(
        err.to_string(),
        "runtime error: paged kv capacity requires 2 pages but allocator has 1"
    );
    let err = PagedKvCacheLayout::new(base.clone(), usize::MAX, 1).expect_err("overflow");
    assert!(err.to_string().contains("page count overflowed usize"));

    let layout = PagedKvCacheLayout::new(base, 4, 3).unwrap();
    let err = layout.validate_page_table(&[0]).expect_err("short table");
    assert_eq!(
        err.to_string(),
        "runtime error: paged kv page table has 1 pages but capacity requires 2"
    );
    let err = layout.logical_page_and_offset(6).expect_err("beyond capacity");
    assert!(err.to_string().contains("position 6 out of range for capacity 6"));
}

#[test]
fn paged_kv_positions_round_trip() {
    let base = KvCacheLayout::new(1, 2, 11, 4, DType::F32, Device::Cpu).unwrap();
    let layout = PagedKvCacheLayout::new(base, 4, 3).unwrap();
    for position in 0..11 {
        let (page, row) = layout.logical_page_and_offset(position).unwrap();
        assert_eq!(page * 4 + row, position);
        assert!(row < 4 && page < layout.required_pages_for_tokens(11).unwrap());
    }
}
