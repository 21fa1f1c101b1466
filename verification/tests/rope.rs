use ocelotl::arith::Arith;
use ocelotl::error::{KernelError, OcelotlError};
use ocelotl::rope::rope_apply_inplace;

struct F32;

impl Arith<f32> for F32 {
    fn from_bits(&self, bits: u32) -> f32 {
        f32::from_bits(bits)
    }

    fn from_int(&self, n: i64) -> f32 {
        n as f32
    }

    fn from_size(&self, n: usize) -> f32 {
        n as f32
    }

    fn add(&self, a: f32, b: f32) -> f32 {
        a + b
    }

    fn sub(&self, a: f32, b: f32) -> f32 {
        a - b
    }

    fn mul(&self, a: f32, b: f32) -> f32 {
        a * b
    }

    fn div(&self, a: f32, b: f32) -> f32 {
        a / b
    }

    fn neg(&self, a: f32) -> f32 {
        -a
    }

    fn exp(&self, a: f32) -> f32 {
        a.exp()
    }

    fn sqrt(&self, a: f32) -> f32 {
        a.sqrt()
    }

    fn tanh(&self, a: f32) -> f32 {
        a.tanh()
    }

    fn fused(&self, a: f32, b: f32, c: f32) -> f32 {
        a.mul_add(b, c)
    }

    fn abs(&self, a: f32) -> f32 {
        a.abs()
    }

    fn powf(&self, a: f32, b: f32) -> f32 {
        a.powf(b)
    }

    fn sin(&self, a: f32) -> f32 {
        a.sin()
    }

    fn cos(&self, a: f32) -> f32 {
        a.cos()
    }

    fn less(&self, a: f32, b: f32) -> bool {
        a < b
    }

    fn at_most(&self, a: f32, b: f32) -> bool {
        a <= b
    }

    fn is_negative(&self, a: f32) -> bool {
        a.is_sign_negative()
    }

    fn is_finite(&self, a: f32) -> bool {
        a.is_finite()
    }

    fn to_bits(&self, a: f32) -> u32 {
        a.to_bits()
    }

    fn show(&self, a: f32) -> String {
        format!("{a}")
    }
}

#[test]
fn rope_at_position_zero_is_identity_for_single_head() {
    let mut x = [0.5_f32, -1.25, 3.0, 7.5];
    let original = x;

    rope_apply_inplace(&F32, &mut x, 4, 0, 10_000.0)
        .expect("position 0 with valid shape must succeed");

    assert_eq!(
        x, original,
        "RoPE at position 0 must be the identity transform"
    );
}

#[test]
fn rope_at_position_zero_is_identity_for_multiple_heads() {
    let mut x = [1.0_f32, 2.0, 3.0, 4.0, 5.0, 6.0, 7.0, 8.0];
    let original = x;

    rope_apply_inplace(&F32, &mut x, 4, 0, 10_000.0)
        .expect("position 0 with valid shape must succeed");

    assert_eq!(x, original, "position 0 must be identity across every head");
}

#[test]
fn rope_at_position_one_with_unit_input_matches_hand_computation() {
    let head_dim = 4_usize;
    let theta = 10_000.0_f32;
    let position = 1_usize;

    let mut x = [1.0_f32, 0.0, 0.0, 1.0];

    rope_apply_inplace(&F32, &mut x, head_dim, position, theta)
        .expect("well-formed RoPE call must succeed");

    let c0 = 0.540_302_3_f32;
    let s0 = 0.841_471_0_f32;
    let c1 = 0.999_950_0_f32;
    let s1 = 0.009_999_833_5_f32;
    let expected = [c0, -s1, s0, c1];

    let tol = 1.0e-6_f32;
    for (idx, (got, want)) in x.iter().zip(expected.iter()).enumerate() {
        assert!(
            (got - want).abs() < tol,
            "RoPE position-1 mismatch at index {idx}: got {got}, want {want}"
        );
    }
}

#[test]
fn rope_rejects_zero_head_dim() {
    let mut x = [1.0_f32, 2.0, 3.0, 4.0];
    let err =
        rope_apply_inplace(&F32, &mut x, 0, 0, 10_000.0).expect_err("zero head_dim must be rejected");

    match err {
        OcelotlError::Kernel(KernelError { backend, message }) => {
            assert_eq!(backend, "cpu");
            assert!(
                message.contains("head_dim"),
                "expected message to mention head_dim, got {message:?}"
            );
        }
        other => panic!("expected KernelError, got {other:?}"),
    }
}

#[test]
fn rope_rejects_odd_head_dim() {
    let mut x = [1.0_f32, 2.0, 3.0];
    let err =
        rope_apply_inplace(&F32, &mut x, 3, 0, 10_000.0).expect_err("odd head_dim must be rejected");

    match err {
        OcelotlError::Kernel(KernelError { backend, message }) => {
            assert_eq!(backend, "cpu");
            assert!(
                message.contains("even"),
                "expected message to mention even, got {message:?}"
            );
        }
        other => panic!("expected KernelError, got {other:?}"),
    }
}

#[test]
fn rope_rejects_length_not_multiple_of_head_dim() {
    let mut x = [1.0_f32, 2.0, 3.0, 4.0, 5.0];
    let err = rope_apply_inplace(&F32, &mut x, 4, 0, 10_000.0)
        .expect_err("non-multiple length must be rejected");
    assert!(matches!(err, OcelotlError::Kernel(_)));
}

#[test]
fn rope_rejects_empty_slice() {
    let mut x: [f32; 0] = [];
    let err =
        rope_apply_inplace(&F32, &mut x, 4, 0, 10_000.0).expect_err("empty slice must be rejected");
    assert!(matches!(err, OcelotlError::Kernel(_)));
}
