use ocelotl::activation::{
    add_scaled_inplace, glu_halves, relu_inplace, sigmoid, sigmoid_inplace, tanh_inplace,
};
use ocelotl::arith::Arith;

struct F32;

impl Arith<f32> for F32 {
    fn from_bits(&self, bits: u32) -> f32 {
        f32::from_bits(bits)
    }

    fn from_int(&self, n: i64) -> f32 {
        n as f32
    }

    fn from_size(&self, n: usize) -> f32 {
        n as f32
    }

    fn add(&self, a: f32, b: f32) -> f32 {
        a + b
    }

    fn sub(&self, a: f32, b: f32) -> f32 {
        a - b
    }

    fn mul(&self, a: f32, b: f32) -> f32 {
        a * b
    }

    fn div(&self, a: f32, b: f32) -> f32 {
        a / b
    }

    fn neg(&self, a: f32) -> f32 {
        -a
    }

    fn exp(&self, a: f32) -> f32 {
        a.exp()
    }

    fn sqrt(&self, a: f32) -> f32 {
        a.sqrt()
    }

    fn tanh(&self, a: f32) -> f32 {
        a.tanh()
    }

    fn fused(&self, a: f32, b: f32, c: f32) -> f32 {
        a.mul_add(b, c)
    }

    fn abs(&self, a: f32) -> f32 {
        a.abs()
    }

    fn powf(&self, a: f32, b: f32) -> f32 {
        a.powf(b)
    }

    fn sin(&self, a: f32) -> f32 {
        a.sin()
    }

    fn cos(&self, a: f32) -> f32 {
        a.cos()
    }

    fn less(&self, a: f32, b: f32) -> bool {
        a < b
    }

    fn at_most(&self, a: f32, b: f32) -> bool {
        a <= b
    }

    fn is_negative(&self, a: f32) -> bool {
        a.is_sign_negative()
    }

    fn is_finite(&self, a: f32) -> bool {
        a.is_finite()
    }

    fn to_bits(&self, a: f32) -> u32 {
        a.to_bits()
    }

    fn show(&self, a: f32) -> String {
        format!("{a}")
    }
}

#[test]
fn relu_clamps_negatives_and_preserves_positives_and_zero() {
    let mut x = [-2.5_f32, -0.0, 0.0, 0.5, 3.0];
    relu_inplace(&F32, &mut x);
    assert_eq!(x, [0.0, 0.0, 0.0, 0.5, 3.0]);
}

#[test]
fn sigmoid_matches_hand_computed_values() {
    assert_eq!(sigmoid(&F32, 0.0), 0.5);
    assert!((sigmoid(&F32, 1.0) - 0.731_058_6).abs() < 1e-6);
    assert!((sigmoid(&F32, -1.0) - 0.268_941_43).abs() < 1e-6);
    for z in [0.3_f32, 2.0, 7.5] {
        assert!((sigmoid(&F32, -z) - (1.0 - sigmoid(&F32, z))).abs() < 1e-6);
    }
}

#[test]
fn sigmoid_tails_are_finite_not_nan() {
    assert_eq!(sigmoid(&F32, -200.0), 0.0);
    assert_eq!(sigmoid(&F32, 200.0), 1.0);
    assert!(sigmoid(&F32, -200.0).is_finite() && sigmoid(&F32, 200.0).is_finite());
}

#[test]
fn tanh_matches_hand_computed_values() {
    let mut x = [0.0_f32, 1.0, -1.0];
    tanh_inplace(&F32, &mut x);
    assert_eq!(x[0], 0.0);
    assert!((x[1] - 0.761_594_2).abs() < 1e-6);
    assert!((x[2] + 0.761_594_2).abs() < 1e-6);
}

#[test]
fn glu_halves_matches_hand_computed_gate() {
    let x = [1.0_f32, 2.0, 0.0, 1.0];
    let mut out = [0.0_f32; 2];
    glu_halves(&F32, &x, 1, 2, &mut out).expect("glu");
    assert!((out[0] - 0.5).abs() < 1e-6, "got {}", out[0]);
    assert!((out[1] - 1.462_117_1).abs() < 1e-6, "got {}", out[1]);
}

#[test]
fn glu_halves_gates_with_the_second_half_not_the_first() {
    let x = [1.0_f32, 2.0, 0.0, 0.0];
    let mut out = [0.0_f32; 2];
    glu_halves(&F32, &x, 1, 2, &mut out).expect("glu");
    assert!((out[0] - 0.5).abs() < 1e-6);
    assert!((out[1] - 1.0).abs() < 1e-6);
}

#[test]
fn glu_halves_rejects_shape_mismatch() {
    let mut out = [0.0_f32; 2];
    assert!(glu_halves(&F32, &[1.0, 2.0, 3.0], 1, 2, &mut out).is_err());
}

#[test]
fn add_scaled_matches_hand_computed_half_step() {
    let mut x = [1.0_f32, 2.0, 3.0];
    add_scaled_inplace(&F32, &mut x, &[10.0, 20.0, 30.0], 0.5).expect("add_scaled");
    assert_eq!(x, [6.0, 12.0, 18.0]);
}

#[test]
fn add_scaled_rejects_length_mismatch() {
    let mut x = [1.0_f32, 2.0];
    assert!(add_scaled_inplace(&F32, &mut x, &[1.0], 0.5).is_err());
}
