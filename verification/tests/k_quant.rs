use ocelotl::arith::Arith;
use ocelotl::error::OcelotlError;
use ocelotl::k_blocks::{
    GgmlKQuantKind, Q4_K_BLOCK_BYTES, Q5_K_BLOCK_BYTES, Q6_K_BLOCK_BYTES, QK_K,
};
use ocelotl::k_quant::{linear_q8_k_k_quant, GgmlKQuantMatrixRef};

struct F32;

impl Arith<f32> for F32 {
    fn from_bits(&self, bits: u32) -> f32 {
        f32::from_bits(bits)
    }

    fn from_int(&self, n: i64) -> f32 {
        n as f32
    }

    fn from_size(&self, n: usize) -> f32 {
        n as f32
    }

    fn add(&self, a: f32, b: f32) -> f32 {
        a + b
    }

    fn sub(&self, a: f32, b: f32) -> f32 {
        a - b
    }

    fn mul(&self, a: f32, b: f32) -> f32 {
        a * b
    }

    fn div(&self, a: f32, b: f32) -> f32 {
        a / b
    }

    fn neg(&self, a: f32) -> f32 {
        -a
    }

    fn exp(&self, a: f32) -> f32 {
        a.exp()
    }

    fn sqrt(&self, a: f32) -> f32 {
        a.sqrt()
    }

    fn tanh(&self, a: f32) -> f32 {
        a.tanh()
    }

    fn fused(&self, a: f32, b: f32, c: f32) -> f32 {
        a.mul_add(b, c)
    }

    fn abs(&self, a: f32) -> f32 {
        a.abs()
    }

    fn powf(&self, a: f32, b: f32) -> f32 {
        a.powf(b)
    }

    fn sin(&self, a: f32) -> f32 {
        a.sin()
    }

    fn cos(&self, a: f32) -> f32 {
        a.cos()
    }

    fn less(&self, a: f32, b: f32) -> bool {
        a < b
    }

    fn at_most(&self, a: f32, b: f32) -> bool {
        a <= b
    }

    fn is_negative(&self, a: f32) -> bool {
        a.is_sign_negative()
    }

    fn is_finite(&self, a: f32) -> bool {
        a.is_finite()
    }

    fn to_bits(&self, a: f32) -> u32 {
        a.to_bits()
    }

    fn show(&self, a: f32) -> String {
        format!("{a}")
    }
}

fn q6_single_weight_block() -> Vec<u8> {
    let mut block = vec![0_u8; Q6_K_BLOCK_BYTES];
    block[0] = 0x01;
    block[128] = 0x02;
    block[192] = 1;
    block[208..210].copy_from_slice(&0x3c00_u16.to_le_bytes());
    block
}

fn q5_single_weight_block() -> Vec<u8> {
    let mut block = vec![0_u8; Q5_K_BLOCK_BYTES];
    block[0..2].copy_from_slice(&0x3c00_u16.to_le_bytes());
    block[4] = 1;
    block[48] = 0x01;
    block
}

fn q5_single_min_block() -> Vec<u8> {
    let mut block = vec![0_u8; Q5_K_BLOCK_BYTES];
    block[2..4].copy_from_slice(&0x3c00_u16.to_le_bytes());
    block[8] = 1;
    block
}

fn single_output_matrix(data: &[u8], kind: GgmlKQuantKind) -> GgmlKQuantMatrixRef<'_> {
    GgmlKQuantMatrixRef {
        input_features: QK_K,
        output_features: 1,
        kind,
        data,
    }
}

#[test]
fn q6_k_q8_k_projection_matches_hand_checked_single_weight() {
    let weight = q6_single_weight_block();
    let mut x = vec![0.0_f32; QK_K * 2];
    x[0] = 1.0;
    x[QK_K] = 2.0;
    let mut out = vec![0.0_f32; 2];

    linear_q8_k_k_quant(
        &F32,
        &x,
        2,
        single_output_matrix(&weight, GgmlKQuantKind::Q6K),
        &mut out,
    )
    .expect("Q6_K x Q8_K projection must succeed");

    assert_eq!(out, vec![1.0, 2.0]);
}

#[test]
fn q5_k_q8_k_projection_matches_hand_checked_single_weight() {
    let weight = q5_single_weight_block();
    let mut x = vec![0.0_f32; QK_K * 2];
    x[0] = 1.0;
    x[QK_K] = 2.0;
    let mut out = vec![0.0_f32; 2];

    linear_q8_k_k_quant(
        &F32,
        &x,
        2,
        single_output_matrix(&weight, GgmlKQuantKind::Q5K),
        &mut out,
    )
    .expect("Q5_K x Q8_K projection must succeed");

    assert_eq!(out, vec![1.0, 2.0]);
}

#[test]
fn q5_k_q8_k_projection_applies_min_term() {
    let weight = q5_single_min_block();
    let mut x = vec![0.0_f32; QK_K];
    x[0] = 1.0;
    let mut out = vec![0.0_f32; 1];

    linear_q8_k_k_quant(
        &F32,
        &x,
        1,
        single_output_matrix(&weight, GgmlKQuantKind::Q5K),
        &mut out,
    )
    .expect("Q5_K min term projection must succeed");

    assert_eq!(out, vec![-1.0]);
}

#[test]
fn q6_k_q8_k_projection_rejects_bad_weight_byte_length() {
    let weight = vec![0_u8; Q6_K_BLOCK_BYTES - 1];
    let x = vec![0.0_f32; QK_K];
    let mut out = vec![0.0_f32; 1];

    let err = linear_q8_k_k_quant(
        &F32,
        &x,
        1,
        single_output_matrix(&weight, GgmlKQuantKind::Q6K),
        &mut out,
    )
    .expect_err("bad Q6_K byte length must fail");

    match err {
        OcelotlError::Kernel(kernel) => assert!(kernel.message.contains("raw weight bytes")),
        other => panic!("expected KernelError for bad Q6_K bytes, got {other:?}"),
    }
}

#[test]
fn q6_k_q8_k_projection_rejects_unaligned_input_width() {
    let weight = q6_single_weight_block();
    let matrix = GgmlKQuantMatrixRef {
        input_features: QK_K - 1,
        output_features: 1,
        kind: GgmlKQuantKind::Q6K,
        data: &weight,
    };
    let x = vec![0.0_f32; QK_K - 1];
    let mut out = vec![0.0_f32; 1];

    let err = linear_q8_k_k_quant(&F32, &x, 1, matrix, &mut out)
        .expect_err("unaligned input width must fail");

    match err {
        OcelotlError::Kernel(kernel) => assert!(kernel.message.contains("block size")),
        other => panic!("expected KernelError for bad input width, got {other:?}"),
    }
}

#[test]
fn q4_k_projection_remains_explicitly_unsupported() {
    let q4_weight = vec![0_u8; Q4_K_BLOCK_BYTES - 1];
    let x = vec![0.0_f32; QK_K];
    let mut out = vec![0.0_f32; 1];

    let err = linear_q8_k_k_quant(
        &F32,
        &x,
        1,
        single_output_matrix(&q4_weight, GgmlKQuantKind::Q4K),
        &mut out,
    )
    .expect_err("Q4_K native projection is not implemented in this slice");

    match err {
        OcelotlError::Unsupported(unsupported) => {
            assert_eq!(unsupported.feature, "ggml_k_quant_projection");
            assert_eq!(unsupported.requested.as_deref(), Some("Q4K"));
            assert_eq!(unsupported.supported, vec!["Q5K", "Q6K"]);
        }
        other => panic!("expected Unsupported for Q4K, got {other:?}"),
    }
}
