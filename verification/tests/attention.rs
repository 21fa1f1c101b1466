use ocelotl::arith::Arith;
use ocelotl::attention::scaled_dot_product_attention;
use ocelotl::error::{KernelError, OcelotlError};

struct F32;

impl Arith<f32> for F32 {
    fn from_bits(&self, bits: u32) -> f32 {
        f32::from_bits(bits)
    }

    fn from_int(&self, n: i64) -> f32 {
        n as f32
    }

    fn from_size(&self, n: usize) -> f32 {
        n as f32
    }

    fn add(&self, a: f32, b: f32) -> f32 {
        a + b
    }

    fn sub(&self, a: f32, b: f32) -> f32 {
        a - b
    }

    fn mul(&self, a: f32, b: f32) -> f32 {
        a * b
    }

    fn div(&self, a: f32, b: f32) -> f32 {
        a / b
    }

    fn neg(&self, a: f32) -> f32 {
        -a
    }

    fn exp(&self, a: f32) -> f32 {
        a.exp()
    }

    fn sqrt(&self, a: f32) -> f32 {
        a.sqrt()
    }

    fn tanh(&self, a: f32) -> f32 {
        a.tanh()
    }

    fn fused(&self, a: f32, b: f32, c: f32) -> f32 {
        a.mul_add(b, c)
    }

    fn abs(&self, a: f32) -> f32 {
        a.abs()
    }

    fn powf(&self, a: f32, b: f32) -> f32 {
        a.powf(b)
    }

    fn sin(&self, a: f32) -> f32 {
        a.sin()
    }

    fn cos(&self, a: f32) -> f32 {
        a.cos()
    }

    fn less(&self, a: f32, b: f32) -> bool {
        a < b
    }

    fn at_most(&self, a: f32, b: f32) -> bool {
        a <= b
    }

    fn is_negative(&self, a: f32) -> bool {
        a.is_sign_negative()
    }

    fn is_finite(&self, a: f32) -> bool {
        a.is_finite()
    }

    fn to_bits(&self, a: f32) -> u32 {
        a.to_bits()
    }

    fn show(&self, a: f32) -> String {
        format!("{a}")
    }
}

#[test]
fn single_head_causal_attention_matches_hand_computation() {
    let q = [1.0_f32, 0.0, 0.0, 1.0];
    let k = [1.0_f32, 0.0, 0.0, 1.0];
    let v = [1.0_f32, 2.0, 3.0, 4.0];
    let mut out = [0.0_f32; 4];

    scaled_dot_product_attention(
        &F32,
        &q, &k, &v, /* seq_len */ 2, /* num_q_heads */ 1, /* num_kv_heads */ 1,
        /* head_dim */ 2, &mut out,
    )
    .expect("well-formed attention call must succeed");

    let expected = [1.0_f32, 2.0, 2.339_521, 3.339_521];
    let tol = 5.0e-6_f32;
    for (idx, (got, want)) in out.iter().zip(expected.iter()).enumerate() {
        assert!(
            (got - want).abs() < tol,
            "attention mismatch at flat index {idx}: got {got}, want {want}"
        );
    }
}

#[test]
fn gqa_mapping_pins_query_head_to_kv_head_assignment() {
    let seq_len = 1_usize;
    let num_q_heads = 4_usize;
    let num_kv_heads = 2_usize;
    let head_dim = 2_usize;

    let q = [1.0_f32, 0.0, 2.0, 0.0, 3.0, 0.0, 4.0, 0.0];
    let k = [1.0_f32, 0.0, 2.0, 0.0];
    let v = [10.0_f32, 20.0, 30.0, 40.0];
    let mut out = [0.0_f32; 8];

    scaled_dot_product_attention(
        &F32,
        &q,
        &k,
        &v,
        seq_len,
        num_q_heads,
        num_kv_heads,
        head_dim,
        &mut out,
    )
    .expect("well-formed GQA attention call must succeed");

    let expected = [10.0_f32, 20.0, 10.0, 20.0, 30.0, 40.0, 30.0, 40.0];
    assert_eq!(
        out, expected,
        "GQA mapping must route q_heads 0,1 to kv_head 0 and q_heads 2,3 to kv_head 1"
    );
}

#[test]
fn causal_mask_excludes_future_positions() {
    let seq_len = 3_usize;
    let head_dim = 1_usize;

    let q = [1.0_f32, 1.0, 1.0];
    let k = [0.0_f32, 0.0, 0.0];
    let v = [1.0_f32, 2.0, 100.0];
    let mut out = [0.0_f32; 3];

    scaled_dot_product_attention(&F32, &q, &k, &v, seq_len, 1, 1, head_dim, &mut out)
        .expect("well-formed causal attention call must succeed");

    let expected = [1.0_f32, 1.5, 103.0 / 3.0];
    let tol = 5.0e-6_f32;
    for (idx, (got, want)) in out.iter().zip(expected.iter()).enumerate() {
        assert!(
            (got - want).abs() < tol,
            "causal-mask attention mismatch at position {idx}: got {got}, want {want}"
        );
    }
}

fn valid_args() -> ([f32; 4], [f32; 4], [f32; 4], [f32; 4]) {
    let q = [1.0_f32, 0.0, 0.0, 1.0];
    let k = [1.0_f32, 0.0, 0.0, 1.0];
    let v = [1.0_f32, 2.0, 3.0, 4.0];
    let out = [0.0_f32; 4];
    (q, k, v, out)
}

fn assert_kernel_err_contains(err: OcelotlError, needle: &str) {
    match err {
        OcelotlError::Kernel(KernelError { backend, message }) => {
            assert_eq!(backend, "cpu");
            assert!(
                message.contains(needle),
                "expected error message to contain {needle:?}, got {message:?}"
            );
        }
        other => panic!("expected KernelError, got {other:?}"),
    }
}

#[test]
fn rejects_zero_head_dim() {
    let (q, k, v, mut out) = valid_args();
    let err = scaled_dot_product_attention(&F32, &q, &k, &v, 2, 1, 1, 0, &mut out)
        .expect_err("zero head_dim must be rejected");
    assert_kernel_err_contains(err, "head_dim");
}

#[test]
fn rejects_zero_seq_len() {
    let (q, k, v, mut out) = valid_args();
    let err = scaled_dot_product_attention(&F32, &q, &k, &v, 0, 1, 1, 2, &mut out)
        .expect_err("zero seq_len must be rejected");
    assert_kernel_err_contains(err, "seq_len");
}

#[test]
fn rejects_q_heads_not_multiple_of_kv_heads() {
    let seq_len = 1;
    let q_heads = 3;
    let kv_heads = 2;
    let head_dim = 2;
    let q = vec![0.0_f32; seq_len * q_heads * head_dim];
    let k = vec![0.0_f32; seq_len * kv_heads * head_dim];
    let v = vec![0.0_f32; seq_len * kv_heads * head_dim];
    let mut out = vec![0.0_f32; seq_len * q_heads * head_dim];

    let err = scaled_dot_product_attention(
        &F32,
        &q, &k, &v, seq_len, q_heads, kv_heads, head_dim, &mut out,
    )
    .expect_err("non-multiple q/kv head count must be rejected");
    assert_kernel_err_contains(err, "multiple of num_kv_heads");
}

#[test]
fn rejects_shape_product_overflow() {
    let mut out = [];
    let err = scaled_dot_product_attention(&F32, &[], &[], &[], usize::MAX, 2, 1, 1, &mut out)
        .expect_err("overflowing shape product must be rejected");

    assert_kernel_err_contains(err, "overflows");
}

#[test]
fn rejects_q_slice_length_mismatch() {
    let q = [0.0_f32; 3];
    let k = [0.0_f32; 4];
    let v = [0.0_f32; 4];
    let mut out = [0.0_f32; 4];

    let err = scaled_dot_product_attention(&F32, &q, &k, &v, 2, 1, 1, 2, &mut out)
        .expect_err("q length mismatch must be rejected");
    assert_kernel_err_contains(err, "q.len()");
}

#[test]
fn rejects_kv_slice_length_mismatch() {
    let q = [0.0_f32; 4];
    let k = [0.0_f32; 3];
    let v = [0.0_f32; 4];
    let mut out = [0.0_f32; 4];

    let err = scaled_dot_product_attention(&F32, &q, &k, &v, 2, 1, 1, 2, &mut out)
        .expect_err("k length mismatch must be rejected");
    assert_kernel_err_contains(err, "k.len()");
}

#[test]
fn rejects_out_slice_length_mismatch() {
    let (q, k, v, _) = valid_args();
    let mut out = [0.0_f32; 3];

    let err = scaled_dot_product_attention(&F32, &q, &k, &v, 2, 1, 1, 2, &mut out)
        .expect_err("out length mismatch must be rejected");
    assert_kernel_err_contains(err, "out.len()");
}
