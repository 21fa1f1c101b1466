use ocelotl::error::OcelotlError;
use ocelotl::gguf::{
    inspect_gguf, GgmlTensorType, GgufMetadataType, GgufMetadataValue, MAX_METADATA_STRING_BYTES,
    SUPPORTED_GGUF_VERSION,
};
use ocelotl::text::FloatText;

struct Floats;

impl FloatText for Floats {
    fn single(&self, bits: u32) -> String {
        format!("{:?}", f32::from_bits(bits))
    }

    fn double(&self, bits: u64) -> String {
        format!("{:?}", f64::from_bits(bits))
    }
}

fn write_u32(out: &mut Vec<u8>, value: u32) {
    out.extend_from_slice(&value.to_le_bytes());
}

fn write_u64(out: &mut Vec<u8>, value: u64) {
    out.extend_from_slice(&value.to_le_bytes());
}

fn write_string(out: &mut Vec<u8>, value: &str) {
    write_u64(out, value.len() as u64);
    out.extend_from_slice(value.as_bytes());
}

fn write_string_metadata(out: &mut Vec<u8>, key: &str, value: &str) {
    write_string(out, key);
    write_u32(out, 8);
    write_string(out, value);
}

fn write_u32_metadata(out: &mut Vec<u8>, key: &str, value: u32) {
    write_string(out, key);
    write_u32(out, 4);
    write_u32(out, value);
}

fn write_string_array_metadata(out: &mut Vec<u8>, key: &str, values: &[&str]) {
    write_string(out, key);
    write_u32(out, 9);
    write_u32(out, 8);
    write_u64(out, values.len() as u64);
    for value in values {
        write_string(out, value);
    }
}

fn minimal_fixture(tensor_offset: u64, tensor_data_len: usize) -> Vec<u8> {
    let mut bytes = Vec::new();
    bytes.extend_from_slice(b"GGUF");
    write_u32(&mut bytes, SUPPORTED_GGUF_VERSION);
    write_u64(&mut bytes, 1);
    write_u64(&mut bytes, 4);

    write_string_metadata(&mut bytes, "general.architecture", "gemma4");
    write_string_metadata(&mut bytes, "general.name", "tiny synthetic gemma4");
    write_u32_metadata(&mut bytes, "general.alignment", 32);
    write_string_array_metadata(&mut bytes, "tokenizer.ggml.tokens", &["<bos>", "<eos>"]);

    write_string(&mut bytes, "blk.0.attn_q.weight");
    write_u32(&mut bytes, 2);
    write_u64(&mut bytes, 2);
    write_u64(&mut bytes, 2);
    write_u32(&mut bytes, 0);
    write_u64(&mut bytes, tensor_offset);

    while bytes.len() % 32 != 0 {
        bytes.push(0);
    }
    bytes.extend(std::iter::repeat_n(0u8, tensor_data_len));

    bytes
}

#[test]
fn inspect_gguf_parses_minimal_v3_manifest_without_payload_read() {
    let path = "minimal.gguf";
    let bytes = minimal_fixture(0, 16);

    let manifest = inspect_gguf(&Floats, path, &bytes).expect("minimal GGUF fixture must inspect");

    assert_eq!(manifest.version, SUPPORTED_GGUF_VERSION);
    assert_eq!(manifest.alignment, 32);
    assert_eq!(
        manifest.metadata_value("general.architecture"),
        Some(&GgufMetadataValue::String("gemma4".to_string()))
    );
    assert_eq!(
        manifest.metadata_value("tokenizer.ggml.tokens"),
        Some(&GgufMetadataValue::Array {
            element_type: GgufMetadataType::String,
            len: 2,
        })
    );

    assert_eq!(manifest.tensors.len(), 1);
    let tensor = &manifest.tensors[0];
    assert_eq!(tensor.name, "blk.0.attn_q.weight");
    assert_eq!(tensor.shape, vec![2, 2]);
    assert_eq!(tensor.tensor_type, GgmlTensorType::F32);
    assert_eq!(tensor.offset, 0);
    assert_eq!(tensor.byte_len, Some(16));
    assert_eq!(tensor.file_offset, manifest.data_start);
}

#[test]
fn inspect_gguf_rejects_truncated_header_with_invalid_model() {
    let path = "truncated.gguf";
    let bytes = b"GGUF\x03";

    let err = inspect_gguf(&Floats, path, bytes).expect_err("truncated GGUF header must fail");

    match err {
        OcelotlError::InvalidModel(invalid) => {
            assert_eq!(invalid.path.as_deref(), Some(path));
            assert_eq!(invalid.field.as_deref(), Some("header"));
            assert!(invalid.message.contains("truncated"));
        }
        other => panic!("expected InvalidModel for truncated GGUF header, got {other:?}"),
    }
}

#[test]
fn inspect_gguf_rejects_unsupported_version_with_typed_unsupported() {
    let path = "unsupported_version.gguf";
    let mut bytes = Vec::new();
    bytes.extend_from_slice(b"GGUF");
    write_u32(&mut bytes, 99);
    write_u64(&mut bytes, 0);
    write_u64(&mut bytes, 0);

    let err = inspect_gguf(&Floats, path, &bytes).expect_err("unsupported GGUF version must fail");

    match err {
        OcelotlError::Unsupported(unsupported) => {
            assert_eq!(unsupported.feature, "gguf_version");
            assert_eq!(unsupported.requested.as_deref(), Some("99"));
            assert!(unsupported.supported.iter().any(|s| s == "3"));
        }
        other => panic!("expected Unsupported for GGUF version, got {other:?}"),
    }
}

#[test]
fn inspect_gguf_rejects_bad_tensor_offset_before_payload_read() {
    let path = "bad_offset.gguf";
    let bytes = minimal_fixture(64, 16);

    let err = inspect_gguf(&Floats, path, &bytes).expect_err("bad tensor offset must fail");

    match err {
        OcelotlError::InvalidModel(invalid) => {
            assert_eq!(invalid.path.as_deref(), Some(path));
            assert_eq!(invalid.field.as_deref(), Some("blk.0.attn_q.weight"));
            assert!(
                invalid.message.contains("exceeds file length")
                    || invalid.message.contains("beyond file length"),
                "expected tensor offset/file length message, got {:?}",
                invalid.message,
            );
        }
        other => panic!("expected InvalidModel for bad tensor offset, got {other:?}"),
    }
}

#[test]
fn inspect_gguf_rejects_oversized_metadata_string() {
    let path = "oversized_string.gguf";
    let mut bytes = Vec::new();
    bytes.extend_from_slice(b"GGUF");
    write_u32(&mut bytes, SUPPORTED_GGUF_VERSION);
    write_u64(&mut bytes, 0);
    write_u64(&mut bytes, 1);
    write_string(&mut bytes, "general.name");
    write_u32(&mut bytes, 8);
    write_u64(&mut bytes, MAX_METADATA_STRING_BYTES + 1);

    let err = inspect_gguf(&Floats, path, &bytes).expect_err("oversized metadata string must fail");

    match err {
        OcelotlError::InvalidModel(invalid) => {
            assert_eq!(invalid.field.as_deref(), Some("metadata string"));
            assert!(invalid.message.contains("exceeds max"));
        }
        other => panic!("expected InvalidModel for oversized metadata, got {other:?}"),
    }
}

#[test]
fn inspect_gguf_rejects_unaligned_tensor_offsets() {
    let path = "unaligned_offset.gguf";
    let bytes = minimal_fixture(1, 16);

    let err = inspect_gguf(&Floats, path, &bytes).expect_err("unaligned tensor offset must fail");

    match err {
        OcelotlError::InvalidModel(invalid) => {
            assert_eq!(invalid.field.as_deref(), Some("blk.0.attn_q.weight"));
            assert!(invalid.message.contains("not aligned"));
        }
        other => panic!("expected InvalidModel for unaligned tensor offset, got {other:?}"),
    }
}
