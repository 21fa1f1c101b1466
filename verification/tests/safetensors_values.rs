use ocelotl::arith::Arith;
use ocelotl::error::OcelotlError;
use ocelotl::safetensors_header::inspect_safetensors;
use ocelotl::safetensors_values::load_safetensors_tensor_f32;
use ocelotl::values::SupportedDtype;

struct F32;

impl Arith<f32> for F32 {
    fn from_bits(&self, bits: u32) -> f32 {
        f32::from_bits(bits)
    }

    fn from_int(&self, n: i64) -> f32 {
        n as f32
    }

    fn from_size(&self, n: usize) -> f32 {
        n as f32
    }

    fn add(&self, a: f32, b: f32) -> f32 {
        a + b
    }

    fn sub(&self, a: f32, b: f32) -> f32 {
        a - b
    }

    fn mul(&self, a: f32, b: f32) -> f32 {
        a * b
    }

    fn div(&self, a: f32, b: f32) -> f32 {
        a / b
    }

    fn neg(&self, a: f32) -> f32 {
        -a
    }

    fn exp(&self, a: f32) -> f32 {
        a.exp()
    }

    fn sqrt(&self, a: f32) -> f32 {
        a.sqrt()
    }

    fn tanh(&self, a: f32) -> f32 {
        a.tanh()
    }

    fn fused(&self, a: f32, b: f32, c: f32) -> f32 {
        a.mul_add(b, c)
    }

    fn abs(&self, a: f32) -> f32 {
        a.abs()
    }

    fn powf(&self, a: f32, b: f32) -> f32 {
        a.powf(b)
    }

    fn sin(&self, a: f32) -> f32 {
        a.sin()
    }

    fn cos(&self, a: f32) -> f32 {
        a.cos()
    }

    fn less(&self, a: f32, b: f32) -> bool {
        a < b
    }

    fn at_most(&self, a: f32, b: f32) -> bool {
        a <= b
    }

    fn is_negative(&self, a: f32) -> bool {
        a.is_sign_negative()
    }

    fn is_finite(&self, a: f32) -> bool {
        a.is_finite()
    }

    fn to_bits(&self, a: f32) -> u32 {
        a.to_bits()
    }

    fn show(&self, a: f32) -> String {
        format!("{a}")
    }
}

/// The bytes of a file with these tensors: name, element type, shape and
/// payload.
fn file_of(tensors: &[(&str, &str, &[usize], Vec<u8>)]) -> Vec<u8> {
    let mut entries: Vec<String> = Vec::new();
    let mut data: Vec<u8> = Vec::new();
    for (name, dtype, shape, payload) in tensors {
        let begin = data.len();
        data.extend(payload);
        let end = data.len();
        entries.push(format!(
            "\"{name}\":{{\"dtype\":\"{dtype}\",\"shape\":{shape:?},\"data_offsets\":[{begin},{end}]}}"
        ));
    }
    let header = format!("{{{}}}", entries.join(","));
    let mut file: Vec<u8> = Vec::new();
    file.extend((header.len() as u64).to_le_bytes());
    file.extend(header.as_bytes());
    file.extend(data);
    file
}

fn f32_bytes(values: &[f32]) -> Vec<u8> {
    values
        .iter()
        .flat_map(|value| value.to_le_bytes())
        .collect()
}

fn u16_bytes(values: &[u16]) -> Vec<u8> {
    values
        .iter()
        .flat_map(|value| value.to_le_bytes())
        .collect()
}

#[test]
fn load_safetensors_tensor_f32_loads_f32_values_and_metadata() {
    let path = "f32_values.safetensors";
    let bytes = file_of(&[("weight", "F32", &[2, 2], f32_bytes(&[1.0, -2.5, 0.0, 3.25]))],
    );

    let loaded = load_safetensors_tensor_f32(&F32, path, &bytes, "weight").expect("load F32 tensor");

    assert_eq!(loaded.name, "weight");
    assert_eq!(loaded.shape, vec![2, 2]);
    assert_eq!(loaded.dtype, SupportedDtype::F32);
    assert_eq!(loaded.values, vec![1.0, -2.5, 0.0, 3.25]);
}

#[test]
fn load_safetensors_tensor_f32_converts_bf16_values() {
    let path = "bf16_values.safetensors";
    let bytes = file_of(&[(
            "weight",
            "BF16",
            &[4],
            u16_bytes(&[0x3f80, 0xc020, 0x0000, 0x7f80]),
        )],
    );

    let loaded = load_safetensors_tensor_f32(&F32, path, &bytes, "weight").expect("load BF16 tensor");

    assert_eq!(loaded.dtype, SupportedDtype::BF16);
    assert_eq!(loaded.values, vec![1.0, -2.5, 0.0, f32::INFINITY]);
}

#[test]
fn load_safetensors_tensor_f32_converts_f16_values() {
    let path = "f16_values.safetensors";
    let bytes = file_of(&[(
            "weight",
            "F16",
            &[6],
            u16_bytes(&[0x3c00, 0xc100, 0x0000, 0x0400, 0x0001, 0x7c00]),
        )],
    );

    let loaded = load_safetensors_tensor_f32(&F32, path, &bytes, "weight").expect("load F16 tensor");

    assert_eq!(loaded.dtype, SupportedDtype::F16);
    assert_eq!(loaded.values[0], 1.0);
    assert_eq!(loaded.values[1], -2.5);
    assert_eq!(loaded.values[2], 0.0);
    assert_eq!(loaded.values[3], f32::from_bits(0x3880_0000));
    assert_eq!(loaded.values[4], f32::from_bits(0x3380_0000));
    assert_eq!(loaded.values[5], f32::INFINITY);
}

#[test]
fn load_safetensors_tensor_f32_preserves_f16_nan() {
    let path = "f16_nan.safetensors";
    let bytes = file_of(&[("weight", "F16", &[1], u16_bytes(&[0x7e00]))]);

    let loaded = load_safetensors_tensor_f32(&F32, path, &bytes, "weight").expect("load F16 tensor");

    assert!(loaded.values[0].is_nan());
}

#[test]
fn load_safetensors_tensor_f32_returns_invalid_model_for_missing_tensor() {
    let path = "missing_tensor.safetensors";
    let bytes = file_of(&[("present", "F32", &[1], f32_bytes(&[1.0]))]);

    let err =
        load_safetensors_tensor_f32(&F32, path, &bytes, "absent").expect_err("missing tensor must fail");

    match err {
        OcelotlError::InvalidModel(invalid) => {
            assert_eq!(invalid.path.as_deref(), Some(path));
            assert_eq!(invalid.field.as_deref(), Some("absent"));
            assert!(invalid.message.contains("absent"));
        }
        other => panic!("expected InvalidModel for missing tensor, got {other:?}"),
    }
}

#[test]
fn load_safetensors_tensor_f32_returns_unsupported_for_unsupported_dtype() {
    let path = "unsupported_dtype.safetensors";
    let bytes = file_of(&[("weight", "F64", &[1], 1.0f64.to_le_bytes().to_vec())],
    );

    let err =
        load_safetensors_tensor_f32(&F32, path, &bytes, "weight").expect_err("F64 must be unsupported");

    match err {
        OcelotlError::Unsupported(unsupported) => {
            assert_eq!(unsupported.feature, "safetensors_dtype");
            assert!(unsupported.requested.as_deref().is_some_and(|requested| {
                requested.contains("F64") && requested.contains("weight")
            }));
        }
        other => panic!("expected Unsupported for F64, got {other:?}"),
    }
}

#[test]
fn load_safetensors_tensor_f32_returns_invalid_model_for_malformed_payload() {
    let path = "malformed_payload.safetensors";
    let bytes = file_of(&[("weight", "F32", &[1], vec![0, 0, 0])]);

    let err =
        load_safetensors_tensor_f32(&F32, path, &bytes, "weight").expect_err("malformed payload fails");

    match err {
        OcelotlError::InvalidModel(invalid) => {
            assert_eq!(invalid.path.as_deref(), Some(path));
            assert!(invalid.message.contains("safetensors"));
        }
        other => panic!("expected InvalidModel for malformed payload, got {other:?}"),
    }
}

#[test]
fn every_listed_tensor_loads_as_listed() {
    let bytes = file_of(&[
        ("a", "F32", &[2, 1], f32_bytes(&[1.5, -2.0])),
        ("b", "BF16", &[3], u16_bytes(&[0x3f80, 0x4000, 0xbf80])),
    ]);
    let manifest = inspect_safetensors("two.safetensors", &bytes).expect("manifest");
    assert_eq!(manifest.tensors.len(), 2);
    for tensor in &manifest.tensors {
        let loaded = load_safetensors_tensor_f32(&F32, "two.safetensors", &bytes, &tensor.name)
            .expect("listed tensor");
        assert_eq!(loaded.name, tensor.name);
        assert_eq!(loaded.shape, tensor.shape);
        assert_eq!(loaded.dtype, tensor.dtype);
        assert_eq!(loaded.values.len(), tensor.shape.iter().product::<usize>());
    }
}

#[test]
fn inspecting_does_not_look_at_the_bytes_of_tensors() {
    let one = file_of(&[("a", "F32", &[2], f32_bytes(&[1.5, -2.0]))]);
    let other = file_of(&[("a", "F32", &[2], f32_bytes(&[0.0, 8.0]))]);
    assert_ne!(one, other);
    assert_eq!(
        inspect_safetensors("one.safetensors", &one).expect("manifest"),
        inspect_safetensors("one.safetensors", &other).expect("manifest")
    );
}
