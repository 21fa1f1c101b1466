use ocelotl::error::OcelotlError;
use ocelotl::safetensors_header::{
    inspect_safetensors, inspect_safetensors_header, require_tensors,
};
use ocelotl::values::SupportedDtype;

/// The bytes of a file with these tensors: name, element type, shape and
/// payload.
fn file_of(tensors: &[(&str, &str, &[usize], Vec<u8>)]) -> Vec<u8> {
    let mut entries: Vec<String> = Vec::new();
    let mut data: Vec<u8> = Vec::new();
    for (name, dtype, shape, payload) in tensors {
        let begin = data.len();
        data.extend(payload);
        let end = data.len();
        entries.push(format!(
            "\"{name}\":{{\"dtype\":\"{dtype}\",\"shape\":{shape:?},\"data_offsets\":[{begin},{end}]}}"
        ));
    }
    let header = format!("{{{}}}", entries.join(","));
    let mut file: Vec<u8> = Vec::new();
    file.extend((header.len() as u64).to_le_bytes());
    file.extend(header.as_bytes());
    file.extend(data);
    file
}

/// The bytes of a file with these tensors, all of their values zero.
fn fixture(tensors: &[(&str, &str, &[usize])]) -> Vec<u8> {
    let with_zeros: Vec<(&str, &str, &[usize], Vec<u8>)> = tensors
        .iter()
        .map(|(name, dtype, shape)| {
            let size: usize = match *dtype {
                "F32" => 4,
                "F16" | "BF16" => 2,
                "F64" => 8,
                other => panic!("unsupported dtype in test fixture: {other}"),
            };
            let count: usize = shape.iter().product();
            (*name, *dtype, *shape, vec![0; count * size])
        })
        .collect();
    file_of(&with_zeros)
}

#[test]
fn inspect_safetensors_returns_tensor_metadata_for_known_good_fixture() {
    let path = "happy.safetensors";
    let bytes = fixture(&[
            ("token_embedding", "F32", &[16, 4]),
            ("lm_head", "F16", &[4, 16]),
        ],
    );

    let manifest = inspect_safetensors(path, &bytes).expect("known-good fixture must inspect");

    assert_eq!(manifest.tensors.len(), 2);

    let tok = &manifest.tensors[0];
    assert_eq!(tok.name, "token_embedding");
    assert_eq!(tok.shape, vec![16, 4]);
    assert_eq!(tok.dtype, SupportedDtype::F32);
    assert_eq!(tok.byte_range, (0, 256));

    let lm_head = &manifest.tensors[1];
    assert_eq!(lm_head.name, "lm_head");
    assert_eq!(lm_head.shape, vec![4, 16]);
    assert_eq!(lm_head.dtype, SupportedDtype::F16);
    assert_eq!(lm_head.byte_range, (256, 384));

    assert_eq!(manifest.data_len, 384);
}

#[test]
fn inspect_safetensors_accepts_large_data_section_without_reading_tensor_bytes() {
    let path = "large_data_header_only.safetensors";
    let data_len: u64 = 4 * 1024 * 1024;
    let header = format!(
        "{{\"large_weight\":{{\"dtype\":\"F32\",\"shape\":[1024,1024],\"data_offsets\":[0,{data_len}]}}}}"
    );
    let file_len = 8 + header.len() as u64 + data_len;

    let manifest = inspect_safetensors_header(path, header.as_bytes(), file_len)
        .expect("header-only inspection must not need data bytes");

    assert_eq!(manifest.data_len, data_len as usize);
    assert_eq!(manifest.tensors.len(), 1);
    assert_eq!(manifest.tensors[0].name, "large_weight");
    assert_eq!(manifest.tensors[0].byte_range, (0, data_len as usize));
}

#[test]
fn inspect_safetensors_rejects_truncated_header_with_invalid_model_error() {
    let path = "truncated_header.safetensors";
    let claimed_header_len: u64 = 1024;
    let mut bytes: Vec<u8> = claimed_header_len.to_le_bytes().to_vec();
    bytes.extend(b"oops");

    let err =
        inspect_safetensors(path, &bytes).expect_err("truncated safetensors header must be rejected");

    match err {
        OcelotlError::InvalidModel(invalid) => {
            assert_eq!(
                invalid.path.as_deref(),
                Some(path),
                "expected fixture path on InvalidModel, got {:?}",
                invalid.path,
            );
            assert!(
                invalid.message.contains("safetensors header"),
                "expected message to mention safetensors header parsing, got {:?}",
                invalid.message,
            );
        }
        other => {
            panic!("expected OcelotlError::InvalidModel for truncated header, got {other:?}")
        }
    }
}

#[test]
fn inspect_safetensors_rejects_unsupported_dtype_with_typed_unsupported_error() {
    let path = "unsupported_dtype.safetensors";
    let bytes = fixture(&[("attention_bias", "F64", &[2, 4])]);

    let err =
        inspect_safetensors(path, &bytes).expect_err("F64 dtype must be rejected with Unsupported");

    match err {
        OcelotlError::Unsupported(unsupported) => {
            assert_eq!(
                unsupported.feature, "safetensors_dtype",
                "expected feature == \"safetensors_dtype\", got {:?}",
                unsupported.feature,
            );
            let requested = unsupported
                .requested
                .as_deref()
                .expect("Unsupported error must carry the requested dtype");
            assert!(
                requested.contains("F64"),
                "expected requested to mention F64, got {requested:?}",
            );
            assert!(
                requested.contains("attention_bias"),
                "expected requested to mention the offending tensor name, got {requested:?}",
            );
            assert!(
                unsupported.supported.iter().any(|s| s == "F32"),
                "expected F32 in supported list, got {:?}",
                unsupported.supported,
            );
        }
        other => {
            panic!("expected OcelotlError::Unsupported for F64 dtype, got {other:?}")
        }
    }
}

#[test]
fn require_tensors_returns_invalid_model_error_when_a_required_tensor_is_missing() {
    let path = "missing_tensor.safetensors";
    let bytes = fixture(&[("embed", "F32", &[2, 4])]);

    let manifest = inspect_safetensors(path, &bytes).expect("fixture inspects");
    let err = require_tensors(&manifest, &["embed", "lm_head"], Some(path))
        .expect_err("require_tensors must reject when a required tensor is absent");

    match err {
        OcelotlError::InvalidModel(invalid) => {
            assert_eq!(
                invalid.path.as_deref(),
                Some(path),
                "expected fixture path on InvalidModel, got {:?}",
                invalid.path,
            );
            assert_eq!(
                invalid.field.as_deref(),
                Some("lm_head"),
                "expected the missing tensor name in field, got {:?}",
                invalid.field,
            );
            assert!(
                invalid.message.contains("lm_head"),
                "expected message to mention the missing tensor, got {:?}",
                invalid.message,
            );
        }
        other => {
            panic!("expected OcelotlError::InvalidModel for missing tensor, got {other:?}")
        }
    }
}

#[test]
fn require_tensors_returns_ok_when_all_required_tensors_are_present() {
    let path = "all_present.safetensors";
    let bytes = fixture(&[("embed", "F32", &[2, 4]), ("lm_head", "F32", &[4, 2])],
    );

    let manifest = inspect_safetensors(path, &bytes).expect("fixture inspects");
    require_tensors(&manifest, &["embed", "lm_head"], Some(path))
        .expect("all required tensors are present");
}

#[test]
fn inspect_safetensors_rejects_shape_offsets_mismatch_with_invalid_model_error() {
    let path = "shape_offsets_mismatch.safetensors";
    let bytes = file_of(&[("attention_weight", "F32", &[4, 8], vec![0; 64])]);

    let err = inspect_safetensors(path, &bytes)
        .expect_err("safetensors header with shape vs data_offsets mismatch must be rejected");

    match err {
        OcelotlError::InvalidModel(invalid) => {
            assert_eq!(
                invalid.path.as_deref(),
                Some(path),
                "expected fixture path on InvalidModel, got {:?}",
                invalid.path,
            );
            assert!(
                invalid.message.contains("safetensors header"),
                "expected message to mention safetensors header parsing, got {:?}",
                invalid.message,
            );
        }
        other => {
            panic!(
                "expected OcelotlError::InvalidModel for shape/offsets mismatch, got {other:?}"
            )
        }
    }
}
