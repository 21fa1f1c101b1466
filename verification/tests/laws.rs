use ocelotl::activation::{erf_scalar, gelu_scalar, mul_inplace, silu_inplace};
use ocelotl::arith::Arith;
use ocelotl::attention::{scaled_dot_product_attention, Heads};
use ocelotl::attention_modes::attend_chunk;
use ocelotl::config::extract_missing_field;
use ocelotl::conv::{conv_out_len, depthwise_conv2d};
use ocelotl::cpu_backend::CpuKernelBackend;
use ocelotl::decoder::{
    attention_decoder_causal_scalar, attention_decoder_incremental_cache_scalar,
    attention_decoder_incremental_scalar, attention_encoder_scalar,
};
use ocelotl::dense::{matmul, matmul_optimized};
use ocelotl::error::OcelotlError;
use ocelotl::gguf::{
    inspect_gguf, inspect_gguf_prefix, GgufFile, GgufMetadataValue, GgufStop,
};
use ocelotl::half::{bf16_bits_to_f32, f16_bits_to_f32};
use ocelotl::k_blocks::{
    quant_of, GgmlKQuantKind, Q4_K_BLOCK_BYTES, Q5_K_BLOCK_BYTES, Q6_K_BLOCK_BYTES,
};
use ocelotl::lanes::linear_out_by_in_avx2;
use ocelotl::layout::transpose_2d;
use ocelotl::linear::{linear_out_by_in, linear_out_by_in_optimized};
use ocelotl::mlp::mlp_gated_silu;
use ocelotl::modes::CpuKernelMode;
use ocelotl::norms::{layer_norm_d, rmsnorm};
use ocelotl::partition::{rows_per_chunk, tiled_rows_per_chunk};
use ocelotl::relpos::rel_shift;
use ocelotl::rope::rope_apply_inplace;
use ocelotl::safetensors_header::inspect_safetensors_header;
use ocelotl::softmax::softmax;
use ocelotl::tensor::{
    readback_values, DeviceTensor, HostRead, HostWrite, Residency, TensorStore,
};
use ocelotl::text::FloatText;

struct F32;

impl FloatText for F32 {
    fn single(&self, bits: u32) -> String {
        format!("{:?}", f32::from_bits(bits))
    }

    fn double(&self, bits: u64) -> String {
        format!("{:?}", f64::from_bits(bits))
    }
}

impl Arith<f32> for F32 {
    fn from_bits(&self, bits: u32) -> f32 {
        f32::from_bits(bits)
    }

    fn from_int(&self, n: i64) -> f32 {
        n as f32
    }

    fn from_size(&self, n: usize) -> f32 {
        n as f32
    }

    fn add(&self, a: f32, b: f32) -> f32 {
        a + b
    }

    fn sub(&self, a: f32, b: f32) -> f32 {
        a - b
    }

    fn mul(&self, a: f32, b: f32) -> f32 {
        a * b
    }

    fn div(&self, a: f32, b: f32) -> f32 {
        a / b
    }

    fn neg(&self, a: f32) -> f32 {
        -a
    }

    fn exp(&self, a: f32) -> f32 {
        a.exp()
    }

    fn sqrt(&self, a: f32) -> f32 {
        a.sqrt()
    }

    fn tanh(&self, a: f32) -> f32 {
        a.tanh()
    }

    fn fused(&self, a: f32, b: f32, c: f32) -> f32 {
        a.mul_add(b, c)
    }

    fn abs(&self, a: f32) -> f32 {
        a.abs()
    }

    fn powf(&self, a: f32, b: f32) -> f32 {
        a.powf(b)
    }

    fn sin(&self, a: f32) -> f32 {
        a.sin()
    }

    fn cos(&self, a: f32) -> f32 {
        a.cos()
    }

    fn less(&self, a: f32, b: f32) -> bool {
        a < b
    }

    fn at_most(&self, a: f32, b: f32) -> bool {
        a <= b
    }

    fn is_negative(&self, a: f32) -> bool {
        a.is_sign_negative()
    }

    fn is_finite(&self, a: f32) -> bool {
        a.is_finite()
    }

    fn to_bits(&self, a: f32) -> u32 {
        a.to_bits()
    }

    fn show(&self, a: f32) -> String {
        format!("{a}")
    }
}

fn wave(n: usize, step: f32) -> Vec<f32> {
    (0..n).map(|i| ((i as f32) * step).sin()).collect()
}

#[test]
fn products_agree_in_every_order_of_loops() {
    let a = wave(7 * 5, 0.013);
    let b = wave(5 * 9, 0.019);
    let mut plain = vec![0.0_f32; 63];
    let mut optimized = vec![1.0_f32; 63];
    matmul(&F32, &a, (7, 5), &b, (5, 9), &mut plain).unwrap();
    matmul_optimized(&F32, &a, (7, 5), &b, (5, 9), &mut optimized).unwrap();
    assert_eq!(plain, optimized);
}

#[test]
fn projections_agree_in_every_order_of_loops() {
    let x = wave(7 * 5, 0.013);
    let w = wave(9 * 5, 0.019);
    let bias = wave(9, 0.1);
    let mut plain = vec![0.0_f32; 63];
    let mut optimized = vec![1.0_f32; 63];
    linear_out_by_in(&F32, &x, 7, 5, &w, 9, Some(&bias), &mut plain).unwrap();
    linear_out_by_in_optimized(&F32, &x, 7, 5, &w, 9, Some(&bias), &mut optimized).unwrap();
    assert_eq!(plain, optimized);
}

#[test]
fn lanes_leave_a_few_rows_to_the_plain_loops() {
    let x = wave(3 * 21, 0.013);
    let w = wave(9 * 21, 0.019);
    let mut plain = vec![0.0_f32; 27];
    let mut lanes = vec![1.0_f32; 27];
    linear_out_by_in(&F32, &x, 3, 21, &w, 9, None, &mut plain).unwrap();
    linear_out_by_in_avx2(&F32, &x, 3, 21, &w, 9, None, &mut lanes).unwrap();
    assert_eq!(plain, lanes);
}

#[test]
fn attention_gives_the_same_twice() {
    let q = wave(4 * 2 * 3, 0.3);
    let k = wave(4 * 3, 0.7);
    let v = wave(4 * 3, 1.1);
    let mut first = vec![0.0_f32; 24];
    let mut second = vec![9.0_f32; 24];
    scaled_dot_product_attention(&F32, &q, &k, &v, 4, 2, 1, 3, &mut first).unwrap();
    scaled_dot_product_attention(&F32, &q, &k, &v, 4, 2, 1, 3, &mut second).unwrap();
    assert_eq!(first, second);
}

#[test]
fn query_heads_of_a_group_share_a_key_head() {
    let q = wave(4 * 4 * 2, 0.3);
    let k = wave(4 * 2 * 2, 0.7);
    let v = wave(4 * 2 * 2, 1.1);
    let double = |kv: &[f32]| -> Vec<f32> {
        kv.chunks(2)
            .flat_map(|head| head.iter().chain(head.iter()).copied().collect::<Vec<f32>>())
            .collect()
    };
    let mut grouped = vec![0.0_f32; 32];
    let mut repeated = vec![0.0_f32; 32];
    scaled_dot_product_attention(&F32, &q, &k, &v, 4, 4, 2, 2, &mut grouped).unwrap();
    scaled_dot_product_attention(&F32, &q, &double(&k), &double(&v), 4, 4, 4, 2, &mut repeated)
        .unwrap();
    assert_eq!(grouped, repeated);
}

#[test]
fn causal_attention_does_not_see_later_rows() {
    let q = wave(5 * 4, 0.3);
    let mut k = wave(5 * 4, 0.7);
    let mut v = wave(5 * 4, 1.1);
    let mut before = vec![0.0_f32; 20];
    attention_decoder_causal_scalar(&F32, &q, &k, &v, 5, 2, 2, 0.5, &mut before);
    for i in 12..20 {
        k[i] = 100.0;
        v[i] = -100.0;
    }
    let mut after = vec![0.0_f32; 20];
    attention_decoder_causal_scalar(&F32, &q, &k, &v, 5, 2, 2, 0.5, &mut after);
    assert_eq!(before[..12], after[..12]);
    assert_ne!(before[12..], after[12..]);
}

#[test]
fn whole_heads_rotate_on_their_own() {
    let x = wave(3 * 4, 0.9);
    let mut together = x.clone();
    rope_apply_inplace(&F32, &mut together, 4, 7, 10_000.0).unwrap();
    for (head, expected) in x.chunks(4).zip(together.chunks(4)) {
        let mut alone = head.to_vec();
        rope_apply_inplace(&F32, &mut alone, 4, 7, 10_000.0).unwrap();
        assert_eq!(alone, expected);
    }
}

#[test]
fn depthwise_channels_do_not_mix() {
    let weight = wave(2 * 3 * 3, 0.4);
    let mut input = wave(2 * 4 * 4, 0.2);
    let mut before = vec![0.0_f32; 32];
    depthwise_conv2d(
        &F32,
        &input,
        2,
        4,
        4,
        &weight,
        None,
        (3, 3),
        (1, 1),
        (1, 1),
        &mut before,
    )
    .unwrap();
    for value in input[16..].iter_mut() {
        *value += 1.0;
    }
    let mut after = vec![0.0_f32; 32];
    depthwise_conv2d(
        &F32,
        &input,
        2,
        4,
        4,
        &weight,
        None,
        (3, 3),
        (1, 1),
        (1, 1),
        &mut after,
    )
    .unwrap();
    assert_eq!(before[..16], after[..16]);
    assert_ne!(before[16..], after[16..]);
}

#[test]
fn same_padding_keeps_the_length_and_stride_two_halves_it() {
    for n in 1..20 {
        assert_eq!(conv_out_len(n, 3, 1, 1), n);
        assert_eq!(conv_out_len(n, 5, 1, 2), n);
        assert_eq!(conv_out_len(n, 3, 2, 1), (n + 1) / 2);
    }
}

#[test]
fn shifting_is_padding_and_slicing() {
    let rows = 4;
    let width = 2 * rows - 1;
    let input: Vec<f32> = (0..rows * width).map(|i| i as f32 + 1.0).collect();
    let mut padded: Vec<f32> = Vec::new();
    for row in input.chunks(width) {
        padded.push(0.0);
        padded.extend(row);
    }
    let viewed = &padded[rows..];
    let mut expected: Vec<f32> = Vec::new();
    for i in 0..rows {
        expected.extend(&viewed[i * width..i * width + rows]);
    }
    let mut out = vec![0.0_f32; rows * rows];
    rel_shift(&input, rows, &mut out).unwrap();
    assert_eq!(out, expected);
}

#[test]
fn equal_offsets_read_equal_columns() {
    let rows = 5;
    let width = 2 * rows - 1;
    let input: Vec<f32> = (0..rows * width).map(|i| (i % width) as f32).collect();
    let mut out = vec![0.0_f32; rows * rows];
    rel_shift(&input, rows, &mut out).unwrap();
    for i in 0..rows {
        for j in 0..rows {
            assert_eq!(out[i * rows + j], (rows - 1 + j - i) as f32);
        }
    }
}

#[test]
fn chunks_cover_the_rows_and_no_more_than_the_threads() {
    for rows in 1..70 {
        for threads in 1..9 {
            let size = rows_per_chunk(rows, threads);
            assert!(size >= 1 && size * threads >= rows);
            assert!((rows + size - 1) / size <= threads);
            let tiled = tiled_rows_per_chunk(rows, threads);
            assert_eq!(tiled % 4, 0);
            assert!(tiled * threads >= rows);
            assert!((rows + tiled - 1) / tiled <= threads);
        }
    }
    assert_eq!(rows_per_chunk(10, 0), 10);
}

#[test]
fn views_see_what_is_written_and_other_buffers_do_not() {
    let mut store: TensorStore<f32> = TensorStore::new();
    let t = DeviceTensor::from_host(&mut store, vec![1.0, 2.0, 3.0]);
    let other = DeviceTensor::from_host(&mut store, vec![4.0]);
    let view = DeviceTensor::view(&store, &t, 1, 2).unwrap();
    t.write_from_host_slice(&mut store, &[7.0, 8.0, 9.0]).unwrap();
    assert_eq!(view.borrow_host_slice(&store).unwrap(), &[8.0, 9.0]);
    assert_eq!(other.borrow_host_slice(&store).unwrap(), &[4.0]);
    assert_eq!(view.len(&store), 2);
    assert!(!view.is_empty(&store));
}

#[test]
fn tensors_on_a_device_are_read_back_and_uploaded() {
    let mut store: TensorStore<f32> = TensorStore::new();
    let t = DeviceTensor::from_device(&mut store, "cubecl", 4);
    assert_eq!(t.residency(&store), Residency::Device("cubecl"));
    assert_eq!(t.try_as_device_buffer(&store), Some(0));
    assert!(t.borrow_host_slice(&store).is_err());
    assert!(t.borrow_host_slice_mut(&mut store).is_err());
    let view = DeviceTensor::view(&store, &t, 1, 2).unwrap();
    match view.to_host_owned(&store) {
        HostRead::Readback { buffer, offset, len } => {
            assert_eq!((buffer, offset, len), (0, 1, 2));
            assert_eq!(
                readback_values(&[1.0, 2.0, 3.0, 4.0], offset, len),
                vec![2.0, 3.0]
            );
        }
        HostRead::Ready(_) => panic!("values are on the device"),
    }
    assert!(matches!(
        t.write_from_host_slice(&mut store, &[0.0; 4]).unwrap(),
        HostWrite::Upload { buffer: 0 }
    ));
}

#[test]
fn widening_a_half_is_exact() {
    for bits in 0..=u16::MAX {
        let exponent = i32::from((bits >> 10) & 0x1f);
        let mantissa = f64::from(bits & 0x3ff);
        let sign = if bits >> 15 == 1 { -1.0 } else { 1.0 };
        let got = f32::from_bits(f16_bits_to_f32(bits));
        if exponent == 31 {
            assert_eq!(got.is_nan(), mantissa != 0.0);
            assert_eq!(got.is_infinite(), mantissa == 0.0);
        } else {
            let magnitude = if exponent == 0 {
                mantissa * 2.0_f64.powi(-24)
            } else {
                (1024.0 + mantissa) * 2.0_f64.powi(exponent - 25)
            };
            assert_eq!(f64::from(got), sign * magnitude);
        }
        assert_eq!(got.is_sign_negative(), sign < 0.0);
        assert_eq!(bf16_bits_to_f32(bits), u32::from(bits) << 16);
    }
}

#[test]
fn block_quants_stay_in_their_ranges() {
    for fill in [0x00_u8, 0x7f, 0x80, 0xa5, 0xff] {
        for e in 0..256 {
            let q4 = quant_of(GgmlKQuantKind::Q4K, &[fill; Q4_K_BLOCK_BYTES], e);
            assert!((0..16).contains(&q4));
            let q5 = quant_of(GgmlKQuantKind::Q5K, &[fill; Q5_K_BLOCK_BYTES], e);
            assert!((0..32).contains(&q5));
            let q6 = quant_of(GgmlKQuantKind::Q6K, &[fill; Q6_K_BLOCK_BYTES], e);
            assert!((-32..32).contains(&q6));
        }
    }
}

#[test]
fn a_missing_field_is_read_back_from_its_message() {
    for name in ["a", "vocab_size", "x y"] {
        let message = format!("oops: missing field `{name}` at line 3");
        assert_eq!(extract_missing_field(&message).as_deref(), Some(name));
    }
}

#[test]
fn softmax_of_one_value_is_one() {
    let mut x = [123.0_f32];
    softmax(&F32, &mut x);
    assert_eq!(x, [1.0]);
}

#[test]
fn gelu_and_silu_have_their_known_values() {
    assert_eq!(gelu_scalar(&F32, 0.0), 0.0);
    assert!((gelu_scalar(&F32, 1.0) - 0.841_344_7).abs() < 1e-5);
    assert!((erf_scalar(&F32, 1.0) - 0.842_700_8).abs() < 1e-5);
    assert!((erf_scalar(&F32, -1.0) + 0.842_700_8).abs() < 1e-5);
    let mut x = [0.0_f32, 1.0];
    silu_inplace(&F32, &mut x);
    assert_eq!(x[0], 0.0);
    assert!((x[1] - 0.731_058_6).abs() < 1e-6);
}

#[test]
fn elementwise_products_need_equal_lengths() {
    let mut x = [2.0_f32, 3.0];
    mul_inplace(&F32, &mut x, &[4.0, 5.0]).unwrap();
    assert_eq!(x, [8.0, 15.0]);
    assert!(mul_inplace(&F32, &mut x, &[4.0]).is_err());
    assert_eq!(x, [8.0, 15.0]);
}

#[test]
fn layer_norm_centres_and_scales() {
    let mut out = [0.0_f32; 2];
    layer_norm_d(&F32, &[1.0, 3.0], 1, 2, &[2.0, 2.0], &[0.5, 0.5], 0.0, &mut out).unwrap();
    assert_eq!(out, [-1.5, 2.5]);
}

#[test]
fn rmsnorm_refuses_a_bad_epsilon() {
    let mut out = [0.0_f32; 2];
    for eps in [-1.0_f32, f32::NAN, f32::INFINITY] {
        assert!(rmsnorm(&F32, &[1.0, 3.0], 1, 2, &[1.0, 1.0], eps, &mut out).is_err());
    }
}

fn gguf_string(out: &mut Vec<u8>, value: &[u8]) {
    out.extend((value.len() as u64).to_le_bytes());
    out.extend(value);
}

fn gguf_head(tensors: u64, entries: u64) -> Vec<u8> {
    let mut bytes: Vec<u8> = b"GGUF".to_vec();
    bytes.extend(3_u32.to_le_bytes());
    bytes.extend(tensors.to_le_bytes());
    bytes.extend(entries.to_le_bytes());
    bytes
}

fn text_entry(out: &mut Vec<u8>, key: &str, value: &[u8]) {
    gguf_string(out, key.as_bytes());
    out.extend(8_u32.to_le_bytes());
    gguf_string(out, value);
}

#[test]
fn the_first_of_equal_keys_wins() {
    let mut bytes = gguf_head(0, 2);
    text_entry(&mut bytes, "general.name", b"first");
    text_entry(&mut bytes, "general.name", b"second");
    bytes.resize(bytes.len().next_multiple_of(32), 0);
    let manifest = inspect_gguf(&F32, "a.gguf", &bytes).expect("manifest");
    assert_eq!(
        manifest.metadata_value("general.name"),
        Some(&GgufMetadataValue::String("first".to_string()))
    );
    assert_eq!(manifest.metadata_value("general.type"), None);
}

#[test]
fn a_prefix_asks_for_more_bytes_until_the_header_is_there() {
    let mut bytes = gguf_head(0, 1);
    text_entry(&mut bytes, "general.name", b"a model");
    bytes.resize(bytes.len().next_multiple_of(32) + 64, 7);
    let whole = inspect_gguf(&F32, "a.gguf", &bytes).expect("manifest");
    let mut have = 0_usize;
    let manifest = loop {
        let file = GgufFile {
            path: "a.gguf",
            prefix: &bytes[..have],
            file_len: bytes.len() as u64,
        };
        match inspect_gguf_prefix(&file) {
            Ok(manifest) => break manifest,
            Err(GgufStop::NeedBytes(n)) => {
                assert!(n as usize > have && n as usize <= bytes.len());
                have = n as usize;
            }
            Err(stop) => panic!("refused: {stop:?}"),
        }
    };
    assert!(have < bytes.len());
    assert_eq!(manifest, whole);
}

#[test]
fn gguf_text_has_to_be_utf8() {
    let mut bytes = gguf_head(0, 1);
    text_entry(&mut bytes, "general.name", b"ab\xff");
    match inspect_gguf(&F32, "a.gguf", &bytes).expect_err("not UTF-8") {
        OcelotlError::InvalidModel(invalid) => {
            assert!(
                invalid
                    .message
                    .contains("invalid utf-8 sequence of 1 bytes from index 2"),
                "got {:?}",
                invalid.message
            );
        }
        other => panic!("expected InvalidModel, got {other:?}"),
    }
}

#[test]
fn an_alignment_that_is_text_is_shown_quoted() {
    let mut bytes = gguf_head(0, 1);
    text_entry(&mut bytes, "general.alignment", b"a\"b");
    match inspect_gguf(&F32, "a.gguf", &bytes).expect_err("not a number") {
        OcelotlError::InvalidModel(invalid) => {
            assert!(
                invalid.message.contains("String(\"a\\\"b\")"),
                "got {:?}",
                invalid.message
            );
        }
        other => panic!("expected InvalidModel, got {other:?}"),
    }
}

#[test]
fn safetensors_headers_have_to_be_utf8_and_json() {
    match inspect_safetensors_header("a.safetensors", b"{\xff", 10).expect_err("not UTF-8") {
        OcelotlError::InvalidModel(invalid) => {
            assert!(invalid.message.contains("invalid utf-8 sequence"));
        }
        other => panic!("expected InvalidModel, got {other:?}"),
    }
    match inspect_safetensors_header("a.safetensors", b"{oops", 13).expect_err("not JSON") {
        OcelotlError::InvalidModel(invalid) => {
            assert!(invalid.message.contains("failed to parse safetensors header: "));
        }
        other => panic!("expected InvalidModel, got {other:?}"),
    }
}

#[test]
fn safetensors_data_has_to_end_with_the_file() {
    let header =
        b"{\"w\":{\"dtype\":\"F32\",\"shape\":[2],\"data_offsets\":[0,8]}}";
    let exact = 8 + header.len() as u64 + 8;
    let manifest = inspect_safetensors_header("a", header, exact).expect("covered");
    assert_eq!(manifest.data_len, 8);
    assert!(inspect_safetensors_header("a", header, exact + 1).is_err());
    assert!(inspect_safetensors_header("a", header, exact - 1).is_err());
}

#[test]
fn safetensors_lists_tensors_in_the_order_of_their_bytes() {
    let header = b"{\"a\":{\"dtype\":\"F16\",\"shape\":[2],\"data_offsets\":[8,12]},\"b\":{\"dtype\":\"F32\",\"shape\":[2],\"data_offsets\":[0,8]}}";
    let manifest =
        inspect_safetensors_header("a", header, 8 + header.len() as u64 + 12).expect("manifest");
    let names: Vec<&str> = manifest.tensors.iter().map(|t| t.name.as_str()).collect();
    assert_eq!(names, ["b", "a"]);
    assert_eq!(manifest.tensors[1].byte_range, (8, 12));
}

#[test]
fn causal_attention_goes_row_by_row() {
    let q = wave(5 * 4, 0.3);
    let k = wave(5 * 4, 0.7);
    let v = wave(5 * 4, 1.1);
    let mut whole = vec![0.0_f32; 20];
    attention_decoder_causal_scalar(&F32, &q, &k, &v, 5, 2, 2, 0.5, &mut whole);
    for i in 0..5 {
        let own = &q[i * 4..i * 4 + 4];
        let mut row = vec![0.0_f32; 4];
        attention_decoder_incremental_cache_scalar(
            &F32,
            own,
            &k,
            &v,
            i + 1,
            2,
            2,
            0.5,
            &mut row,
        );
        assert_eq!(row, whole[i * 4..i * 4 + 4]);
    }
}

#[test]
fn a_projection_is_a_product_with_the_transposed_weight() {
    let x = wave(3 * 5, 0.3);
    let w = wave(4 * 5, 0.7);
    let mut projected = vec![0.0_f32; 12];
    linear_out_by_in(&F32, &x, 3, 5, &w, 4, None, &mut projected).unwrap();
    let mut product = vec![0.0_f32; 12];
    matmul(&F32, &x, (3, 5), &transpose_2d(&w, 4, 5), (5, 4), &mut product).unwrap();
    assert_eq!(projected, product);
}

#[test]
fn rows_of_a_product_are_products_of_rows() {
    let a = wave(3 * 4, 0.4);
    let b = wave(4 * 2, 0.9);
    let mut whole = vec![0.0_f32; 6];
    matmul(&F32, &a, (3, 4), &b, (4, 2), &mut whole).unwrap();
    for (row, expected) in a.chunks(4).zip(whole.chunks(2)) {
        let mut alone = vec![0.0_f32; 2];
        matmul(&F32, row, (1, 4), &b, (4, 2), &mut alone).unwrap();
        assert_eq!(alone, expected);
    }
}

#[test]
fn rows_of_a_gated_mlp_stand_alone() {
    let x = wave(3 * 2, 0.4);
    let gate_w = wave(2 * 4, 0.9);
    let up_w = wave(2 * 4, 0.5);
    let down_w = wave(4 * 2, 0.2);
    let mlp = |x: &[f32], rows: usize| {
        let mut gate_buf = vec![0.0_f32; rows * 4];
        let mut up_buf = vec![0.0_f32; rows * 4];
        let mut out = vec![0.0_f32; rows * 2];
        mlp_gated_silu(
            &F32,
            x,
            rows,
            2,
            4,
            &gate_w,
            &up_w,
            &down_w,
            &mut gate_buf,
            &mut up_buf,
            &mut out,
        )
        .unwrap();
        out
    };
    let whole = mlp(&x, 3);
    for (row, expected) in x.chunks(2).zip(whole.chunks(2)) {
        assert_eq!(mlp(row, 1), expected);
    }
}

#[test]
fn position_zero_turns_nothing() {
    let x = wave(3 * 4, 0.9);
    let mut turned = x.clone();
    rope_apply_inplace(&F32, &mut turned, 4, 0, 10_000.0).unwrap();
    assert_eq!(turned, x);
    rope_apply_inplace(&F32, &mut turned, 4, 1, 10_000.0).unwrap();
    assert_ne!(turned, x);
}

#[test]
fn an_alignment_that_is_a_float_is_shown_as_one() {
    for (tag, payload, text) in [
        (6_u32, 32.0_f32.to_le_bytes().to_vec(), "F32(32.0)"),
        (6, 0.1_f32.to_le_bytes().to_vec(), "F32(0.1)"),
        (12, 1e300_f64.to_le_bytes().to_vec(), "F64(1e300)"),
    ] {
        let mut bytes = gguf_head(0, 1);
        gguf_string(&mut bytes, b"general.alignment");
        bytes.extend(tag.to_le_bytes());
        bytes.extend(payload);
        match inspect_gguf(&F32, "a.gguf", &bytes).expect_err("not an integer") {
            OcelotlError::InvalidModel(invalid) => {
                assert_eq!(invalid.path.as_deref(), Some("a.gguf"));
                assert_eq!(invalid.field.as_deref(), Some("general.alignment"));
                assert_eq!(
                    invalid.message,
                    format!("GGUF general.alignment must be uint32 or uint64, got {text}")
                );
            }
            other => panic!("expected InvalidModel, got {other:?}"),
        }
    }
}

#[test]
fn float_values_are_equal_as_numbers() {
    let single = |v: f32| GgufMetadataValue::F32(v.to_bits());
    let double = |v: f64| GgufMetadataValue::F64(v.to_bits());
    assert_eq!(single(1.5), single(1.5));
    assert_eq!(single(0.0), single(-0.0));
    assert_eq!(single(f32::INFINITY), single(f32::INFINITY));
    assert_ne!(single(f32::NAN), single(f32::NAN));
    assert_ne!(single(1.5), single(-1.5));
    assert_eq!(double(0.0), double(-0.0));
    assert_ne!(double(f64::NAN), double(f64::NAN));
    assert_ne!(double(1.0), single(1.0));
    assert_ne!(GgufMetadataValue::U32(1), GgufMetadataValue::U64(1));
}

#[test]
fn inspecting_does_not_look_at_tensor_data() {
    let mut bytes = gguf_head(1, 0);
    gguf_string(&mut bytes, b"w");
    bytes.extend(1_u32.to_le_bytes());
    bytes.extend(2_u64.to_le_bytes());
    bytes.extend(0_u32.to_le_bytes());
    bytes.extend(0_u64.to_le_bytes());
    bytes.resize(bytes.len().next_multiple_of(32), 0);
    let start = bytes.len();
    bytes.extend([1, 2, 3, 4, 5, 6, 7, 8]);
    let manifest = inspect_gguf(&F32, "a.gguf", &bytes).expect("manifest");
    assert_eq!(manifest.data_start, start as u64);
    bytes[start..].fill(255);
    assert_eq!(inspect_gguf(&F32, "b.gguf", &bytes).expect("manifest"), manifest);
    let header = GgufFile {
        path: "a.gguf",
        prefix: &bytes[..start],
        file_len: bytes.len() as u64,
    };
    assert_eq!(inspect_gguf_prefix(&header).expect("manifest"), manifest);
}

#[test]
fn lanes_are_exact_on_whole_numbers() {
    for (rows, n, outs) in [(4, 16, 4), (5, 19, 6), (8, 7, 9), (3, 8, 4)] {
        let whole = |len: usize, step: usize| -> Vec<f32> {
            (0..len).map(|i| ((i * step) % 23) as f32 - 11.0).collect()
        };
        let (x, w, bias) = (whole(rows * n, 5), whole(outs * n, 7), whole(outs, 3));
        for b in [None, Some(bias.as_slice())] {
            let mut plain = vec![0.5_f32; rows * outs];
            let mut lanes = vec![-0.5_f32; rows * outs];
            linear_out_by_in(&F32, &x, rows, n, &w, outs, b, &mut plain).unwrap();
            linear_out_by_in_avx2(&F32, &x, rows, n, &w, outs, b, &mut lanes).unwrap();
            assert_eq!(plain, lanes);
            let exact: i64 = (0..n).map(|k| x[n + k] as i64 * w[n + k] as i64).sum::<i64>()
                + b.map_or(0, |b| b[1] as i64);
            assert_eq!(lanes[outs + 1], exact as f32);
        }
    }
}

#[test]
fn a_zero_row_of_a_gated_mlp_stays_zero() {
    let mut x = wave(3 * 2, 0.4);
    x[2..4].fill(0.0);
    let (gate_w, up_w, down_w) = (wave(2 * 4, 0.9), wave(2 * 4, 0.5), wave(4 * 2, 0.2));
    let mut gate_buf = vec![7.0_f32; 12];
    let mut up_buf = vec![7.0_f32; 12];
    let mut out = vec![7.0_f32; 6];
    mlp_gated_silu(
        &F32,
        &x,
        3,
        2,
        4,
        &gate_w,
        &up_w,
        &down_w,
        &mut gate_buf,
        &mut up_buf,
        &mut out,
    )
    .unwrap();
    assert_eq!(out[2..4], [0.0, 0.0]);
    assert_ne!(out[..2], [0.0, 0.0]);
}

#[test]
fn a_tensor_belongs_to_the_store_that_holds_its_buffer() {
    let mut store: TensorStore<f32> = TensorStore::new();
    let empty: TensorStore<f32> = TensorStore::new();
    let t = DeviceTensor::from_host(&mut store, vec![1.0, 2.0]);
    let view = DeviceTensor::view(&store, &t, 1, 1).unwrap();
    assert!(t.belongs_to(&store) && view.belongs_to(&store));
    assert!(!t.belongs_to(&empty) && !view.belongs_to(&empty));
}

#[test]
fn attention_in_chunks_is_the_reference() {
    let (seq, n_head, dim) = (5, 2, 3);
    let len = seq * n_head * dim;
    let (q, k, v) = (wave(len, 0.3), wave(len, 0.7), wave(len, 1.1));
    let mut reference = vec![0.0_f32; len];
    attention_encoder_scalar(&F32, &q, &k, &v, seq, n_head, dim, 0.5, &mut reference);
    let heads = Heads {
        queries: n_head,
        keys: n_head,
        dim,
        rows: seq,
        causal: false,
    };
    for mode in [CpuKernelMode::Scalar, CpuKernelMode::Optimized] {
        for size in [1, 3, 4, 10] {
            let mut out = vec![9.0_f32; len];
            for (c, chunk) in out.chunks_mut(size * dim).enumerate() {
                attend_chunk(&F32, mode, heads, 0.5, &q, &k, &v, c * size, chunk);
            }
            assert_eq!(out, reference);
        }
    }
}

#[test]
fn a_cache_gives_the_incremental_result() {
    let (n_head, dim, capacity, visible) = (2, 3, 6, 4);
    let state = n_head * dim;
    let q = wave(state, 0.3);
    let mut keys = wave(capacity * state, 0.7);
    let mut values = wave(capacity * state, 1.1);
    let past = (visible - 1) * state;
    let mut incremental = vec![0.0_f32; state];
    attention_decoder_incremental_scalar(
        &F32,
        &q,
        &keys[..past],
        &values[..past],
        &keys[past..past + state],
        &values[past..past + state],
        visible - 1,
        n_head,
        dim,
        0.5,
        &mut incremental,
    );
    for behind in [0.0, 100.0] {
        keys[visible * state..].fill(behind);
        values[visible * state..].fill(behind);
        let mut cached = vec![0.0_f32; state];
        CpuKernelBackend::scalar()
            .attention_decoder_incremental_cache_d(
                &F32,
                &q,
                &keys,
                &values,
                visible,
                capacity,
                n_head,
                dim,
                0.5,
                &mut cached,
            )
            .unwrap();
        assert_eq!(cached, incremental);
    }
}

#[test]
fn projecting_in_chunks_is_projecting_at_once() {
    let (rows, n, outs) = (7, 5, 3);
    let (x, w, bias) = (wave(rows * n, 0.3), wave(outs * n, 0.7), wave(outs, 0.2));
    let mut whole = vec![0.0_f32; rows * outs];
    linear_out_by_in(&F32, &x, rows, n, &w, outs, Some(&bias), &mut whole).unwrap();
    for size in [1, 2, 4, 7] {
        let mut split = vec![9.0_f32; rows * outs];
        for (a, out) in x.chunks(size * n).zip(split.chunks_mut(size * outs)) {
            linear_out_by_in(&F32, a, a.len() / n, n, &w, outs, Some(&bias), out).unwrap();
        }
        assert_eq!(split, whole);
    }
}
