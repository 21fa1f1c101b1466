use ocelotl::arith::Arith;
use ocelotl::dense::{dot, matmul, vec_add};
use ocelotl::error::{KernelError, OcelotlError};
use ocelotl::softmax::softmax;

struct F32;

impl Arith<f32> for F32 {
    fn from_bits(&self, bits: u32) -> f32 {
        f32::from_bits(bits)
    }

    fn from_int(&self, n: i64) -> f32 {
        n as f32
    }

    fn from_size(&self, n: usize) -> f32 {
        n as f32
    }

    fn add(&self, a: f32, b: f32) -> f32 {
        a + b
    }

    fn sub(&self, a: f32, b: f32) -> f32 {
        a - b
    }

    fn mul(&self, a: f32, b: f32) -> f32 {
        a * b
    }

    fn div(&self, a: f32, b: f32) -> f32 {
        a / b
    }

    fn neg(&self, a: f32) -> f32 {
        -a
    }

    fn exp(&self, a: f32) -> f32 {
        a.exp()
    }

    fn sqrt(&self, a: f32) -> f32 {
        a.sqrt()
    }

    fn tanh(&self, a: f32) -> f32 {
        a.tanh()
    }

    fn fused(&self, a: f32, b: f32, c: f32) -> f32 {
        a.mul_add(b, c)
    }

    fn abs(&self, a: f32) -> f32 {
        a.abs()
    }

    fn powf(&self, a: f32, b: f32) -> f32 {
        a.powf(b)
    }

    fn sin(&self, a: f32) -> f32 {
        a.sin()
    }

    fn cos(&self, a: f32) -> f32 {
        a.cos()
    }

    fn less(&self, a: f32, b: f32) -> bool {
        a < b
    }

    fn at_most(&self, a: f32, b: f32) -> bool {
        a <= b
    }

    fn is_negative(&self, a: f32) -> bool {
        a.is_sign_negative()
    }

    fn is_finite(&self, a: f32) -> bool {
        a.is_finite()
    }

    fn to_bits(&self, a: f32) -> u32 {
        a.to_bits()
    }

    fn show(&self, a: f32) -> String {
        format!("{a}")
    }
}

#[test]
fn vec_add_handles_four_element_vectors() {
    let a = [1.0_f32, 2.0, 3.0, 4.0];
    let b = [10.0_f32, 20.0, 30.0, 40.0];
    let mut out = [0.0_f32; 4];

    vec_add(&F32, &a, &b, &mut out).expect("equal-length vec_add must succeed");

    assert_eq!(out, [11.0, 22.0, 33.0, 44.0]);
}

#[test]
fn vec_add_rejects_mismatched_input_lengths() {
    let a = [1.0_f32, 2.0, 3.0];
    let b = [1.0_f32, 2.0];
    let mut out = [0.0_f32; 3];

    let err = vec_add(&F32, &a, &b, &mut out).expect_err("must reject mismatched input lengths");

    match err {
        OcelotlError::Kernel(KernelError { backend, message }) => {
            assert_eq!(backend, "cpu");
            assert!(
                message.contains("vec_add"),
                "expected error to mention kernel name, got {message:?}"
            );
        }
        other => panic!("expected KernelError, got {other:?}"),
    }
}

#[test]
fn vec_add_rejects_mismatched_output_length() {
    let a = [1.0_f32, 2.0, 3.0];
    let b = [10.0_f32, 20.0, 30.0];
    let mut out = [0.0_f32; 4];

    let err = vec_add(&F32, &a, &b, &mut out).expect_err("must reject mismatched output length");
    assert!(matches!(err, OcelotlError::Kernel(_)));
}

#[test]
fn dot_computes_inner_product_of_four_element_vectors() {
    let a = [1.0_f32, 2.0, 3.0, 4.0];
    let b = [10.0_f32, 20.0, 30.0, 40.0];

    let result = dot(&F32, &a, &b).expect("equal-length dot must succeed");

    assert_eq!(result, 300.0);
}

#[test]
fn dot_of_empty_slices_is_zero() {
    let a: [f32; 0] = [];
    let b: [f32; 0] = [];

    assert_eq!(dot(&F32, &a, &b).unwrap(), 0.0);
}

#[test]
fn dot_rejects_mismatched_lengths() {
    let a = [1.0_f32, 2.0, 3.0];
    let b = [1.0_f32, 2.0];

    let err = dot(&F32, &a, &b).expect_err("must reject mismatched lengths");

    match err {
        OcelotlError::Kernel(KernelError { backend, message }) => {
            assert_eq!(backend, "cpu");
            assert!(
                message.contains("dot"),
                "expected error to mention kernel name, got {message:?}"
            );
        }
        other => panic!("expected KernelError, got {other:?}"),
    }
}

#[test]
fn softmax_produces_known_distribution_for_three_element_input() {
    let mut x = [1.0_f32, 2.0, 3.0];
    softmax(&F32, &mut x);

    let expected = [0.09003057_f32, 0.24472847, 0.66524096];
    for (got, want) in x.iter().zip(expected.iter()) {
        assert!(
            (got - want).abs() < 4.0 * f32::EPSILON,
            "softmax mismatch: got {got}, want {want}"
        );
    }

    let sum: f32 = x.iter().sum();
    assert!(
        (sum - 1.0).abs() < 4.0 * f32::EPSILON,
        "softmax must sum to 1.0, got {sum}"
    );
}

#[test]
fn softmax_is_stable_for_large_inputs() {
    let mut x = [1000.0_f32, 1001.0, 1002.0];
    softmax(&F32, &mut x);

    let sum: f32 = x.iter().sum();
    assert!(
        (sum - 1.0).abs() < 4.0 * f32::EPSILON,
        "stable softmax must sum to 1.0 even for large inputs, got {sum}"
    );
    for v in x.iter() {
        assert!(v.is_finite(), "softmax output must be finite, got {v}");
    }
}

#[test]
fn softmax_of_empty_slice_is_a_noop() {
    let mut x: [f32; 0] = [];
    softmax(&F32, &mut x);
}

#[test]
fn softmax_of_uniform_input_is_uniform_distribution() {
    let mut x = [5.0_f32; 4];
    softmax(&F32, &mut x);
    for v in x.iter() {
        assert!(
            (v - 0.25).abs() < 4.0 * f32::EPSILON,
            "uniform softmax must be 1/n, got {v}"
        );
    }
}

#[test]
fn matmul_handles_two_by_two_times_two_by_two() {
    let a = [1.0_f32, 2.0, 3.0, 4.0];
    let b = [5.0_f32, 6.0, 7.0, 8.0];
    let mut out = [0.0_f32; 4];

    matmul(&F32, &a, (2, 2), &b, (2, 2), &mut out).expect("well-formed matmul must succeed");

    assert_eq!(out, [19.0, 22.0, 43.0, 50.0]);
}

#[test]
fn matmul_handles_non_square_two_by_three_times_three_by_two() {
    let a = [1.0_f32, 2.0, 3.0, 4.0, 5.0, 6.0];
    let b = [7.0_f32, 8.0, 9.0, 10.0, 11.0, 12.0];
    let mut out = [0.0_f32; 4];

    matmul(&F32, &a, (2, 3), &b, (3, 2), &mut out).expect("well-formed matmul must succeed");

    assert_eq!(out, [58.0, 64.0, 139.0, 154.0]);
}

#[test]
fn matmul_rejects_inner_dimension_mismatch() {
    let a = [1.0_f32; 6];
    let b = [1.0_f32; 8];
    let mut out = [0.0_f32; 4];

    let err = matmul(&F32, &a, (2, 3), &b, (4, 2), &mut out).expect_err("must reject inner-dim mismatch");

    match err {
        OcelotlError::Kernel(KernelError { backend, message }) => {
            assert_eq!(backend, "cpu");
            assert!(
                message.contains("inner-dimension"),
                "expected inner-dim message, got {message:?}"
            );
        }
        other => panic!("expected KernelError, got {other:?}"),
    }
}

#[test]
fn matmul_rejects_wrong_a_slice_length() {
    let a = [1.0_f32; 5];
    let b = [1.0_f32; 6];
    let mut out = [0.0_f32; 4];

    let err = matmul(&F32, &a, (2, 3), &b, (3, 2), &mut out).expect_err("must reject wrong a length");
    assert!(matches!(err, OcelotlError::Kernel(_)));
}

#[test]
fn matmul_rejects_wrong_output_length() {
    let a = [1.0_f32; 6];
    let b = [1.0_f32; 6];
    let mut out = [0.0_f32; 3];

    let err = matmul(&F32, &a, (2, 3), &b, (3, 2), &mut out).expect_err("must reject wrong out length");
    assert!(matches!(err, OcelotlError::Kernel(_)));
}

#[test]
fn matmul_rejects_shape_product_overflow() {
    let a = [];
    let b = [];
    let mut out = [];

    let err = matmul(&F32, &a, (usize::MAX, 2), &b, (2, 1), &mut out)
        .expect_err("overflowing shapes must be rejected");

    match err {
        OcelotlError::Kernel(KernelError { message, .. }) => {
            assert!(
                message.contains("overflows"),
                "expected overflow diagnostic, got {message:?}"
            );
        }
        other => panic!("expected KernelError, got {other:?}"),
    }
}

