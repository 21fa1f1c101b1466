use ocelotl::arith::Arith;
use ocelotl::error::OcelotlError;
use ocelotl::gguf::inspect_gguf;
use ocelotl::gguf_values::{
    load_gguf_tensor_dequantized_f32, load_gguf_tensor_f32, load_gguf_tensors_dequantized_f32,
    load_gguf_tensors_f32,
};
use ocelotl::k_blocks::{Q4_K_BLOCK_BYTES, Q5_K_BLOCK_BYTES, Q6_K_BLOCK_BYTES, QK_K};
use ocelotl::text::FloatText;
use ocelotl::values::SupportedDtype;

struct F32;

impl FloatText for F32 {
    fn single(&self, bits: u32) -> String {
        format!("{:?}", f32::from_bits(bits))
    }

    fn double(&self, bits: u64) -> String {
        format!("{:?}", f64::from_bits(bits))
    }
}

impl Arith<f32> for F32 {
    fn from_bits(&self, bits: u32) -> f32 {
        f32::from_bits(bits)
    }

    fn from_int(&self, n: i64) -> f32 {
        n as f32
    }

    fn from_size(&self, n: usize) -> f32 {
        n as f32
    }

    fn add(&self, a: f32, b: f32) -> f32 {
        a + b
    }

    fn sub(&self, a: f32, b: f32) -> f32 {
        a - b
    }

    fn mul(&self, a: f32, b: f32) -> f32 {
        a * b
    }

    fn div(&self, a: f32, b: f32) -> f32 {
        a / b
    }

    fn neg(&self, a: f32) -> f32 {
        -a
    }

    fn exp(&self, a: f32) -> f32 {
        a.exp()
    }

    fn sqrt(&self, a: f32) -> f32 {
        a.sqrt()
    }

    fn tanh(&self, a: f32) -> f32 {
        a.tanh()
    }

    fn fused(&self, a: f32, b: f32, c: f32) -> f32 {
        a.mul_add(b, c)
    }

    fn abs(&self, a: f32) -> f32 {
        a.abs()
    }

    fn powf(&self, a: f32, b: f32) -> f32 {
        a.powf(b)
    }

    fn sin(&self, a: f32) -> f32 {
        a.sin()
    }

    fn cos(&self, a: f32) -> f32 {
        a.cos()
    }

    fn less(&self, a: f32, b: f32) -> bool {
        a < b
    }

    fn at_most(&self, a: f32, b: f32) -> bool {
        a <= b
    }

    fn is_negative(&self, a: f32) -> bool {
        a.is_sign_negative()
    }

    fn is_finite(&self, a: f32) -> bool {
        a.is_finite()
    }

    fn to_bits(&self, a: f32) -> u32 {
        a.to_bits()
    }

    fn show(&self, a: f32) -> String {
        format!("{a}")
    }
}

const GGUF_MAGIC: &[u8; 4] = b"GGUF";
const GGUF_VERSION: u32 = 3;
const ALIGNMENT: usize = 32;

struct FixtureTensor<'a> {
    name: &'a str,
    shape: &'a [u64],
    raw_type: u32,
    payload: Vec<u8>,
}

fn write_u32(out: &mut Vec<u8>, value: u32) {
    out.extend_from_slice(&value.to_le_bytes());
}

fn write_u64(out: &mut Vec<u8>, value: u64) {
    out.extend_from_slice(&value.to_le_bytes());
}

fn write_string(out: &mut Vec<u8>, value: &str) {
    write_u64(out, value.len() as u64);
    out.extend_from_slice(value.as_bytes());
}

fn write_string_metadata(out: &mut Vec<u8>, key: &str, value: &str) {
    write_string(out, key);
    write_u32(out, 8);
    write_string(out, value);
}

fn write_u32_metadata(out: &mut Vec<u8>, key: &str, value: u32) {
    write_string(out, key);
    write_u32(out, 4);
    write_u32(out, value);
}

fn align_len(len: usize) -> usize {
    len.next_multiple_of(ALIGNMENT)
}

fn fixture(tensors: &[FixtureTensor<'_>]) -> Vec<u8> {
    let mut payloads = Vec::new();
    let mut next_offset = 0usize;
    for tensor in tensors {
        next_offset = align_len(next_offset);
        payloads.push((next_offset, tensor.payload.as_slice()));
        next_offset += tensor.payload.len();
    }

    let mut bytes = Vec::new();
    bytes.extend_from_slice(GGUF_MAGIC);
    write_u32(&mut bytes, GGUF_VERSION);
    write_u64(&mut bytes, tensors.len() as u64);
    write_u64(&mut bytes, 3);
    write_string_metadata(&mut bytes, "general.architecture", "gemma4");
    write_string_metadata(&mut bytes, "general.name", "tiny gguf values");
    write_u32_metadata(&mut bytes, "general.alignment", ALIGNMENT as u32);

    for (tensor, (offset, _payload)) in tensors.iter().zip(payloads.iter()) {
        write_string(&mut bytes, tensor.name);
        write_u32(&mut bytes, tensor.shape.len() as u32);
        for dim in tensor.shape {
            write_u64(&mut bytes, *dim);
        }
        write_u32(&mut bytes, tensor.raw_type);
        write_u64(&mut bytes, *offset as u64);
    }

    while bytes.len() % ALIGNMENT != 0 {
        bytes.push(0);
    }
    let data_start = bytes.len();
    bytes.resize(data_start + next_offset, 0);
    for (offset, payload) in payloads {
        let start = data_start + offset;
        bytes[start..start + payload.len()].copy_from_slice(payload);
    }

    bytes
}

fn f32_bytes(values: &[f32]) -> Vec<u8> {
    values
        .iter()
        .flat_map(|value| value.to_le_bytes())
        .collect()
}

fn u16_bytes(values: &[u16]) -> Vec<u8> {
    values
        .iter()
        .flat_map(|value| value.to_le_bytes())
        .collect()
}

fn one_f16() -> [u8; 2] {
    0x3c00_u16.to_le_bytes()
}

fn half_f16() -> [u8; 2] {
    0x3800_u16.to_le_bytes()
}

fn q4_k_block() -> Vec<u8> {
    let mut block = vec![0; Q4_K_BLOCK_BYTES];
    block[0..2].copy_from_slice(&one_f16());
    block[2..4].copy_from_slice(&half_f16());
    block[4] = 2;
    block[5] = 3;
    block[8] = 2;
    block[9] = 4;
    block[16] = 0x21;
    block
}

fn expected_q4_k_values() -> Vec<f32> {
    let mut expected = vec![0.0; QK_K];
    expected[0..32].fill(-1.0);
    expected[32..64].fill(-2.0);
    expected[0] = 1.0;
    expected[32] = 4.0;
    expected
}

fn q4_k_all_groups_block() -> Vec<u8> {
    let mut block = vec![0; Q4_K_BLOCK_BYTES];
    block[0..2].copy_from_slice(&one_f16());
    block[2..4].copy_from_slice(&half_f16());
    block[4..16].copy_from_slice(&[
        0x41, 0x42, 0x83, 0xc4, 0x45, 0x46, 0x87, 0xc8, 0x31, 0x42, 0x21, 0xef,
    ]);
    block[16] = 0x21;
    block[48] = 0x43;
    block[80] = 0x65;
    block[112] = 0xfe;
    block
}

fn q5_k_block() -> Vec<u8> {
    let mut block = vec![0; Q5_K_BLOCK_BYTES];
    block[0..2].copy_from_slice(&one_f16());
    block[2..4].copy_from_slice(&half_f16());
    block[4] = 1;
    block[5] = 2;
    block[8] = 2;
    block[9] = 4;
    block[16] = 0x03;
    block[48] = 0x21;
    block
}

fn expected_q5_k_values() -> Vec<f32> {
    let mut expected = vec![0.0; QK_K];
    expected[0..32].fill(-1.0);
    expected[32..64].fill(-2.0);
    expected[0] = 16.0;
    expected[32] = 34.0;
    expected
}

fn q6_k_block() -> Vec<u8> {
    let mut block = vec![0; Q6_K_BLOCK_BYTES];
    block[0] = 0x21;
    block[32] = 0x43;
    block[192] = 1;
    block[194] = 2;
    block[196] = 3;
    block[198] = 4;
    block[208..210].copy_from_slice(&one_f16());
    block
}

fn expected_q6_k_values() -> Vec<f32> {
    let mut expected = vec![0.0; QK_K];
    expected[0..16].fill(-32.0);
    expected[32..48].fill(-64.0);
    expected[64..80].fill(-96.0);
    expected[96..112].fill(-128.0);
    expected[0] = -31.0;
    expected[32] = -58.0;
    expected[64] = -90.0;
    expected[96] = -112.0;
    expected
}

#[test]
fn load_gguf_tensor_f32_loads_f32_values_and_metadata() {
    let path = "f32_values.gguf";
    let bytes = fixture(
        &[FixtureTensor {
            name: "dense.weight",
            shape: &[2, 2],
            raw_type: 0,
            payload: f32_bytes(&[1.0, -2.5, 0.0, 3.25]),
        }],
    );

    let loaded = load_gguf_tensor_f32(&F32, path, &bytes, "dense.weight").expect("load F32 tensor");

    assert_eq!(loaded.name, "dense.weight");
    assert_eq!(loaded.shape, vec![2, 2]);
    assert_eq!(loaded.dtype, SupportedDtype::F32);
    assert_eq!(loaded.values, vec![1.0, -2.5, 0.0, 3.25]);
}

#[test]
fn load_gguf_tensor_f32_converts_bf16_values() {
    let path = "bf16_values.gguf";
    let bytes = fixture(
        &[FixtureTensor {
            name: "dense.weight",
            shape: &[4],
            raw_type: 30,
            payload: u16_bytes(&[0x3f80, 0xc020, 0x0000, 0x7f80]),
        }],
    );

    let loaded = load_gguf_tensor_f32(&F32, path, &bytes, "dense.weight").expect("load BF16 tensor");

    assert_eq!(loaded.dtype, SupportedDtype::BF16);
    assert_eq!(loaded.values, vec![1.0, -2.5, 0.0, f32::INFINITY]);
}

#[test]
fn load_gguf_tensor_f32_converts_f16_values() {
    let path = "f16_values.gguf";
    let bytes = fixture(
        &[FixtureTensor {
            name: "dense.weight",
            shape: &[6],
            raw_type: 1,
            payload: u16_bytes(&[0x3c00, 0xc100, 0x0000, 0x0400, 0x0001, 0x7c00]),
        }],
    );

    let loaded = load_gguf_tensor_f32(&F32, path, &bytes, "dense.weight").expect("load F16 tensor");

    assert_eq!(loaded.dtype, SupportedDtype::F16);
    assert_eq!(loaded.values[0], 1.0);
    assert_eq!(loaded.values[1], -2.5);
    assert_eq!(loaded.values[2], 0.0);
    assert_eq!(loaded.values[3], f32::from_bits(0x3880_0000));
    assert_eq!(loaded.values[4], f32::from_bits(0x3380_0000));
    assert_eq!(loaded.values[5], f32::INFINITY);
}

#[test]
fn load_gguf_tensors_f32_loads_many_tensors_in_requested_order() {
    let path = "many_values.gguf";
    let bytes = fixture(
        &[
            FixtureTensor {
                name: "first",
                shape: &[2],
                raw_type: 0,
                payload: f32_bytes(&[1.0, 2.0]),
            },
            FixtureTensor {
                name: "second",
                shape: &[1],
                raw_type: 0,
                payload: f32_bytes(&[-3.5]),
            },
        ],
    );

    let names = vec!["second".to_string(), "first".to_string()];
    let loaded = load_gguf_tensors_f32(&F32, path, &bytes, &names).expect("load many GGUF tensors");

    assert_eq!(loaded.len(), 2);
    assert_eq!(loaded[0].name, "second");
    assert_eq!(loaded[0].values, vec![-3.5]);
    assert_eq!(loaded[1].name, "first");
    assert_eq!(loaded[1].values, vec![1.0, 2.0]);
}

#[test]
fn load_gguf_tensor_f32_returns_invalid_model_for_missing_tensor() {
    let path = "missing_tensor.gguf";
    let bytes = fixture(
        &[FixtureTensor {
            name: "present",
            shape: &[1],
            raw_type: 0,
            payload: f32_bytes(&[1.0]),
        }],
    );

    let err = load_gguf_tensor_f32(&F32, path, &bytes, "absent").expect_err("missing tensor must fail");

    match err {
        OcelotlError::InvalidModel(invalid) => {
            assert_eq!(invalid.path.as_deref(), Some(path));
            assert_eq!(invalid.field.as_deref(), Some("absent"));
            assert!(invalid.message.contains("absent"));
        }
        other => panic!("expected InvalidModel for missing tensor, got {other:?}"),
    }
}

#[test]
fn load_gguf_tensor_f32_returns_unsupported_for_quantized_tensor() {
    let path = "q4k_unsupported.gguf";
    let bytes = fixture(
        &[FixtureTensor {
            name: "quant.weight",
            shape: &[256],
            raw_type: 12,
            payload: vec![0; 144],
        }],
    );

    let err = load_gguf_tensor_f32(&F32, path, &bytes, "quant.weight").expect_err("Q4K must be unsupported");

    match err {
        OcelotlError::Unsupported(unsupported) => {
            assert_eq!(unsupported.feature, "gguf_tensor_type");
            assert!(unsupported.requested.as_deref().is_some_and(|requested| {
                requested.contains("Q4K") && requested.contains("quant.weight")
            }));
        }
        other => panic!("expected Unsupported for Q4K, got {other:?}"),
    }
}

#[test]
fn load_gguf_tensor_dequantized_f32_rejects_k_quant_row_not_block_multiple() {
    let path = "q4k_bad_row.gguf";
    let bytes = fixture(
        &[FixtureTensor {
            name: "quant.weight",
            shape: &[128, 2],
            raw_type: 12,
            payload: q4_k_block(),
        }],
    );

    let err = load_gguf_tensor_dequantized_f32(&F32, path, &bytes, "quant.weight")
        .expect_err("K-quant row width must be block-aligned");

    match err {
        OcelotlError::InvalidModel(invalid) => {
            assert_eq!(invalid.field.as_deref(), Some("quant.weight"));
            assert!(invalid.message.contains("row element count 128"));
            assert!(invalid.message.contains("256"));
        }
        other => panic!("expected InvalidModel for bad K-quant row width, got {other:?}"),
    }
}

#[test]
fn load_gguf_tensor_dequantized_f32_loads_q4_k_all_scale_min_groups() {
    let path = "q4k_all_groups.gguf";
    let bytes = fixture(
        &[FixtureTensor {
            name: "quant.weight",
            shape: &[256],
            raw_type: 12,
            payload: q4_k_all_groups_block(),
        }],
    );

    let loaded = load_gguf_tensor_dequantized_f32(&F32, path, &bytes, "quant.weight")
        .expect("load dequantized Q4_K tensor");

    assert_eq!(loaded.values[0], -1.5);
    assert_eq!(loaded.values[32], 1.0);
    assert_eq!(loaded.values[64], 5.5);
    assert_eq!(loaded.values[96], 12.0);
    assert_eq!(loaded.values[128], 75.5);
    assert_eq!(loaded.values[160], 98.0);
    assert_eq!(loaded.values[192], 445.0);
    assert_eq!(loaded.values[224], 914.0);
}

#[test]
fn load_gguf_tensor_dequantized_f32_loads_q4_k_values() {
    let path = "q4k_dequant.gguf";
    let bytes = fixture(
        &[FixtureTensor {
            name: "quant.weight",
            shape: &[256],
            raw_type: 12,
            payload: q4_k_block(),
        }],
    );

    let loaded = load_gguf_tensor_dequantized_f32(&F32, path, &bytes, "quant.weight")
        .expect("load dequantized Q4_K tensor");

    assert_eq!(loaded.name, "quant.weight");
    assert_eq!(loaded.shape, vec![256]);
    assert_eq!(loaded.dtype, SupportedDtype::F32);
    assert_eq!(loaded.values, expected_q4_k_values());
}

#[test]
fn load_gguf_tensor_dequantized_f32_loads_q5_k_values() {
    let path = "q5k_dequant.gguf";
    let bytes = fixture(
        &[FixtureTensor {
            name: "quant.weight",
            shape: &[256],
            raw_type: 13,
            payload: q5_k_block(),
        }],
    );

    let loaded = load_gguf_tensor_dequantized_f32(&F32, path, &bytes, "quant.weight")
        .expect("load dequantized Q5_K tensor");

    assert_eq!(loaded.shape, vec![256]);
    assert_eq!(loaded.dtype, SupportedDtype::F32);
    assert_eq!(loaded.values, expected_q5_k_values());
}

#[test]
fn load_gguf_tensor_dequantized_f32_loads_q6_k_values() {
    let path = "q6k_dequant.gguf";
    let bytes = fixture(
        &[FixtureTensor {
            name: "quant.weight",
            shape: &[256],
            raw_type: 14,
            payload: q6_k_block(),
        }],
    );

    let loaded = load_gguf_tensor_dequantized_f32(&F32, path, &bytes, "quant.weight")
        .expect("load dequantized Q6_K tensor");

    assert_eq!(loaded.shape, vec![256]);
    assert_eq!(loaded.dtype, SupportedDtype::F32);
    assert_eq!(loaded.values, expected_q6_k_values());
}

#[test]
fn load_gguf_tensors_dequantized_f32_loads_dense_and_quantized_values() {
    let path = "many_dequant.gguf";
    let bytes = fixture(
        &[
            FixtureTensor {
                name: "dense",
                shape: &[1],
                raw_type: 0,
                payload: f32_bytes(&[3.0]),
            },
            FixtureTensor {
                name: "quant",
                shape: &[256],
                raw_type: 12,
                payload: q4_k_block(),
            },
        ],
    );

    let names = vec!["quant".to_string(), "dense".to_string()];
    let loaded =
        load_gguf_tensors_dequantized_f32(&F32, path, &bytes, &names).expect("load mixed GGUF tensors");

    assert_eq!(loaded.len(), 2);
    assert_eq!(loaded[0].name, "quant");
    assert_eq!(loaded[0].values, expected_q4_k_values());
    assert_eq!(loaded[1].name, "dense");
    assert_eq!(loaded[1].dtype, SupportedDtype::F32);
    assert_eq!(loaded[1].values, vec![3.0]);
}

fn mixed_file() -> Vec<u8> {
    fixture(&[
        FixtureTensor {
            name: "dense",
            shape: &[2, 3],
            raw_type: 0,
            payload: f32_bytes(&[1.0, 2.0, 3.0, 4.0, 5.0, 6.0]),
        },
        FixtureTensor {
            name: "halves",
            shape: &[4],
            raw_type: 1,
            payload: u16_bytes(&[0x3c00, 0x3800, 0xc000, 0x0000]),
        },
        FixtureTensor {
            name: "blocks",
            shape: &[256],
            raw_type: 12,
            payload: q4_k_block(),
        },
    ])
}

#[test]
fn every_listed_dense_tensor_loads_as_listed() {
    let bytes = mixed_file();
    let manifest = inspect_gguf(&F32, "mixed.gguf", &bytes).expect("manifest");
    assert_eq!(manifest.tensors.len(), 3);
    for tensor in manifest.tensors.iter().filter(|t| t.name != "blocks") {
        let plain = load_gguf_tensor_f32(&F32, "mixed.gguf", &bytes, &tensor.name).expect("dense");
        let either = load_gguf_tensor_dequantized_f32(&F32, "mixed.gguf", &bytes, &tensor.name)
            .expect("dense");
        assert_eq!(plain.name, tensor.name);
        assert_eq!(plain.shape, tensor.shape);
        assert_eq!(plain.values.len(), tensor.shape.iter().product::<usize>());
        assert_eq!(plain.values, either.values);
    }
}

#[test]
fn blocks_are_refused_where_dense_values_are_asked_for() {
    let bytes = mixed_file();
    let refused = load_gguf_tensor_f32(&F32, "mixed.gguf", &bytes, "blocks");
    assert!(matches!(refused, Err(OcelotlError::Unsupported(_))));
    let loaded = load_gguf_tensor_dequantized_f32(&F32, "mixed.gguf", &bytes, "blocks")
        .expect("decoded blocks");
    assert_eq!(loaded.values, expected_q4_k_values());
}

#[test]
fn several_tensors_load_as_each_of_them_does() {
    let bytes = mixed_file();
    let names = ["blocks", "dense", "halves"].map(String::from);
    let several = load_gguf_tensors_dequantized_f32(&F32, "mixed.gguf", &bytes, &names)
        .expect("three tensors");
    assert_eq!(several.len(), 3);
    for (name, tensor) in names.iter().zip(&several) {
        let one = load_gguf_tensor_dequantized_f32(&F32, "mixed.gguf", &bytes, name)
            .expect("one tensor");
        assert_eq!(one.name, tensor.name);
        assert_eq!(one.shape, tensor.shape);
        assert_eq!(one.values, tensor.values);
    }
}
