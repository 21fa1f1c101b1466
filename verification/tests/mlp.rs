use ocelotl::activation::silu_inplace;
use ocelotl::arith::Arith;
use ocelotl::error::{KernelError, OcelotlError};
use ocelotl::mlp::mlp_gated_silu;

struct F32;

impl Arith<f32> for F32 {
    fn from_bits(&self, bits: u32) -> f32 {
        f32::from_bits(bits)
    }

    fn from_int(&self, n: i64) -> f32 {
        n as f32
    }

    fn from_size(&self, n: usize) -> f32 {
        n as f32
    }

    fn add(&self, a: f32, b: f32) -> f32 {
        a + b
    }

    fn sub(&self, a: f32, b: f32) -> f32 {
        a - b
    }

    fn mul(&self, a: f32, b: f32) -> f32 {
        a * b
    }

    fn div(&self, a: f32, b: f32) -> f32 {
        a / b
    }

    fn neg(&self, a: f32) -> f32 {
        -a
    }

    fn exp(&self, a: f32) -> f32 {
        a.exp()
    }

    fn sqrt(&self, a: f32) -> f32 {
        a.sqrt()
    }

    fn tanh(&self, a: f32) -> f32 {
        a.tanh()
    }

    fn fused(&self, a: f32, b: f32, c: f32) -> f32 {
        a.mul_add(b, c)
    }

    fn abs(&self, a: f32) -> f32 {
        a.abs()
    }

    fn powf(&self, a: f32, b: f32) -> f32 {
        a.powf(b)
    }

    fn sin(&self, a: f32) -> f32 {
        a.sin()
    }

    fn cos(&self, a: f32) -> f32 {
        a.cos()
    }

    fn less(&self, a: f32, b: f32) -> bool {
        a < b
    }

    fn at_most(&self, a: f32, b: f32) -> bool {
        a <= b
    }

    fn is_negative(&self, a: f32) -> bool {
        a.is_sign_negative()
    }

    fn is_finite(&self, a: f32) -> bool {
        a.is_finite()
    }

    fn to_bits(&self, a: f32) -> u32 {
        a.to_bits()
    }

    fn show(&self, a: f32) -> String {
        format!("{a}")
    }
}

#[test]
fn silu_inplace_matches_hand_checked_values() {
    let mut x = [0.0_f32, 1.0, -1.0, 2.0, 3.0];
    silu_inplace(&F32, &mut x);

    let expected = [0.0_f32, 0.7310586, -0.26894143, 1.7615942, 2.8577223];
    for (got, want) in x.iter().zip(expected.iter()) {
        assert!(
            (got - want).abs() < 1e-6,
            "silu mismatch: got {got}, want {want}"
        );
    }
}

#[test]
fn silu_inplace_asymptotes_are_finite() {
    let mut x = [-30.0_f32, 30.0];
    silu_inplace(&F32, &mut x);

    assert!(x[0].is_finite(), "silu(-30) must be finite, got {}", x[0]);
    assert!(x[0].abs() < 1e-6, "silu(-30) must underflow toward 0");
    assert!(x[1].is_finite(), "silu(30) must be finite, got {}", x[1]);
    assert!((x[1] - 30.0).abs() < 1e-3, "silu(30) ≈ 30, got {}", x[1]);
}

#[test]
fn silu_inplace_of_empty_slice_is_a_noop() {
    let mut x: [f32; 0] = [];
    silu_inplace(&F32, &mut x);
}

#[test]
fn mlp_gated_silu_tiny_fixture_matches_hand_computation() {
    let x = [1.0_f32, 2.0];
    let gate_w = [1.0_f32, 0.0, 1.0, -1.0, 0.0, 1.0, 1.0, 0.0];
    let up_w = [1.0_f32, 1.0, 0.0, 2.0, 1.0, -1.0, 1.0, 0.0];
    let down_w = [1.0_f32, 0.0, 0.0, 1.0, 1.0, 0.0, 0.0, 1.0];

    let mut gate_buf = [0.0_f32; 4];
    let mut up_buf = [0.0_f32; 4];
    let mut out = [0.0_f32; 2];

    mlp_gated_silu(
        &F32,
        &x,
        1,
        2,
        4,
        &gate_w,
        &up_w,
        &down_w,
        &mut gate_buf,
        &mut up_buf,
        &mut out,
    )
    .expect("well-formed mlp_gated_silu must succeed");

    let expected = [7.9086204_f32, -2.299477];
    for (got, want) in out.iter().zip(expected.iter()) {
        assert!(
            (got - want).abs() < 1e-5,
            "mlp_gated_silu mismatch: got {got}, want {want}"
        );
    }
}

#[test]
fn mlp_gated_silu_processes_rows_independently() {
    let x = [1.0_f32, 2.0, 0.0, 0.0];
    let gate_w = [1.0_f32, 0.0, 1.0, -1.0, 0.0, 1.0, 1.0, 0.0];
    let up_w = [1.0_f32, 1.0, 0.0, 2.0, 1.0, -1.0, 1.0, 0.0];
    let down_w = [1.0_f32, 0.0, 0.0, 1.0, 1.0, 0.0, 0.0, 1.0];

    let mut gate_buf = [0.0_f32; 8];
    let mut up_buf = [0.0_f32; 8];
    let mut out = [0.0_f32; 4];

    mlp_gated_silu(
        &F32,
        &x,
        2,
        2,
        4,
        &gate_w,
        &up_w,
        &down_w,
        &mut gate_buf,
        &mut up_buf,
        &mut out,
    )
    .expect("well-formed mlp_gated_silu must succeed");

    assert!(
        (out[0] - 7.9086204).abs() < 1e-5,
        "row 0 col 0: got {}",
        out[0]
    );
    assert!(
        (out[1] - (-2.299477)).abs() < 1e-5,
        "row 0 col 1: got {}",
        out[1]
    );

    assert_eq!(out[2], 0.0, "row 1 col 0 must be zero, got {}", out[2]);
    assert_eq!(out[3], 0.0, "row 1 col 1 must be zero, got {}", out[3]);
}

#[test]
fn mlp_gated_silu_rejects_zero_seq_len() {
    let err = mlp_gated_silu(
        &F32,
        &[],
        0,
        2,
        4,
        &[0.0; 8],
        &[0.0; 8],
        &[0.0; 8],
        &mut [0.0; 0],
        &mut [0.0; 0],
        &mut [0.0; 0],
    )
    .expect_err("must reject zero seq_len");
    match err {
        OcelotlError::Kernel(KernelError { backend, message }) => {
            assert_eq!(backend, "cpu");
            assert!(
                message.contains("seq_len"),
                "expected seq_len message, got {message:?}"
            );
        }
        other => panic!("expected KernelError, got {other:?}"),
    }
}

#[test]
fn mlp_gated_silu_rejects_zero_hidden() {
    let err = mlp_gated_silu(
        &F32,
        &[],
        1,
        0,
        4,
        &[],
        &[],
        &[],
        &mut [0.0; 4],
        &mut [0.0; 4],
        &mut [],
    )
    .expect_err("must reject zero hidden");
    assert!(matches!(err, OcelotlError::Kernel(_)));
}

#[test]
fn mlp_gated_silu_rejects_zero_intermediate() {
    let err = mlp_gated_silu(
        &F32,
        &[1.0, 2.0],
        1,
        2,
        0,
        &[],
        &[],
        &[],
        &mut [],
        &mut [],
        &mut [0.0; 2],
    )
    .expect_err("must reject zero intermediate");
    assert!(matches!(err, OcelotlError::Kernel(_)));
}

#[test]
fn mlp_gated_silu_rejects_x_length_mismatch() {
    let err = mlp_gated_silu(
        &F32,
        &[1.0, 2.0, 3.0],
        1,
        2,
        4,
        &[0.0; 8],
        &[0.0; 8],
        &[0.0; 8],
        &mut [0.0; 4],
        &mut [0.0; 4],
        &mut [0.0; 2],
    )
    .expect_err("must reject x length mismatch");
    assert!(matches!(err, OcelotlError::Kernel(_)));
}

#[test]
fn mlp_gated_silu_rejects_gate_w_length_mismatch() {
    let err = mlp_gated_silu(
        &F32,
        &[1.0, 2.0],
        1,
        2,
        4,
        &[0.0; 7],
        &[0.0; 8],
        &[0.0; 8],
        &mut [0.0; 4],
        &mut [0.0; 4],
        &mut [0.0; 2],
    )
    .expect_err("must reject gate_w length mismatch");
    assert!(matches!(err, OcelotlError::Kernel(_)));
}

#[test]
fn mlp_gated_silu_rejects_down_w_length_mismatch() {
    let err = mlp_gated_silu(
        &F32,
        &[1.0, 2.0],
        1,
        2,
        4,
        &[0.0; 8],
        &[0.0; 8],
        &[0.0; 9],
        &mut [0.0; 4],
        &mut [0.0; 4],
        &mut [0.0; 2],
    )
    .expect_err("must reject down_w length mismatch");
    assert!(matches!(err, OcelotlError::Kernel(_)));
}

#[test]
fn mlp_gated_silu_rejects_scratch_buffer_length_mismatch() {
    let err = mlp_gated_silu(
        &F32,
        &[1.0, 2.0],
        1,
        2,
        4,
        &[0.0; 8],
        &[0.0; 8],
        &[0.0; 8],
        &mut [0.0; 3],
        &mut [0.0; 4],
        &mut [0.0; 2],
    )
    .expect_err("must reject gate_buf length mismatch");
    assert!(matches!(err, OcelotlError::Kernel(_)));

    let err = mlp_gated_silu(
        &F32,
        &[1.0, 2.0],
        1,
        2,
        4,
        &[0.0; 8],
        &[0.0; 8],
        &[0.0; 8],
        &mut [0.0; 4],
        &mut [0.0; 5],
        &mut [0.0; 2],
    )
    .expect_err("must reject up_buf length mismatch");
    assert!(matches!(err, OcelotlError::Kernel(_)));
}

#[test]
fn mlp_gated_silu_rejects_out_length_mismatch() {
    let err = mlp_gated_silu(
        &F32,
        &[1.0, 2.0],
        1,
        2,
        4,
        &[0.0; 8],
        &[0.0; 8],
        &[0.0; 8],
        &mut [0.0; 4],
        &mut [0.0; 4],
        &mut [0.0; 3],
    )
    .expect_err("must reject out length mismatch");
    assert!(matches!(err, OcelotlError::Kernel(_)));
}
