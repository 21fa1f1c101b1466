use ocelotl::arith::Arith;
use ocelotl::pooling::{l2_normalize, mean_pool};

struct F32;

impl Arith<f32> for F32 {
    fn from_bits(&self, bits: u32) -> f32 {
        f32::from_bits(bits)
    }

    fn from_int(&self, n: i64) -> f32 {
        n as f32
    }

    fn from_size(&self, n: usize) -> f32 {
        n as f32
    }

    fn add(&self, a: f32, b: f32) -> f32 {
        a + b
    }

    fn sub(&self, a: f32, b: f32) -> f32 {
        a - b
    }

    fn mul(&self, a: f32, b: f32) -> f32 {
        a * b
    }

    fn div(&self, a: f32, b: f32) -> f32 {
        a / b
    }

    fn neg(&self, a: f32) -> f32 {
        -a
    }

    fn exp(&self, a: f32) -> f32 {
        a.exp()
    }

    fn sqrt(&self, a: f32) -> f32 {
        a.sqrt()
    }

    fn tanh(&self, a: f32) -> f32 {
        a.tanh()
    }

    fn fused(&self, a: f32, b: f32, c: f32) -> f32 {
        a.mul_add(b, c)
    }

    fn abs(&self, a: f32) -> f32 {
        a.abs()
    }

    fn powf(&self, a: f32, b: f32) -> f32 {
        a.powf(b)
    }

    fn sin(&self, a: f32) -> f32 {
        a.sin()
    }

    fn cos(&self, a: f32) -> f32 {
        a.cos()
    }

    fn less(&self, a: f32, b: f32) -> bool {
        a < b
    }

    fn at_most(&self, a: f32, b: f32) -> bool {
        a <= b
    }

    fn is_negative(&self, a: f32) -> bool {
        a.is_sign_negative()
    }

    fn is_finite(&self, a: f32) -> bool {
        a.is_finite()
    }

    fn to_bits(&self, a: f32) -> u32 {
        a.to_bits()
    }

    fn show(&self, a: f32) -> String {
        format!("{a}")
    }
}

#[test]
fn mean_pool_averages_token_rows() {
    let hidden = [1.0_f32, 2.0, 3.0, 3.0, 4.0, 5.0];
    let out = mean_pool(&F32, &hidden, 2, 3).expect("well-formed mean_pool");
    assert_eq!(out, vec![2.0, 3.0, 4.0]);
}

#[test]
fn mean_pool_rejects_length_mismatch() {
    let hidden = [1.0_f32, 2.0, 3.0];
    assert!(mean_pool(&F32, &hidden, 2, 3).is_err());
}

#[test]
fn l2_normalize_makes_unit_norm() {
    let mut v = [3.0_f32, 4.0];
    l2_normalize(&F32, &mut v);
    assert!((v[0] - 0.6).abs() < 1e-6 && (v[1] - 0.8).abs() < 1e-6);
    let n: f32 = v.iter().map(|x| x * x).sum::<f32>().sqrt();
    assert!((n - 1.0).abs() < 1e-6);
}

#[test]
fn l2_normalize_zero_vector_is_noop() {
    let mut v = [0.0_f32, 0.0];
    l2_normalize(&F32, &mut v);
    assert_eq!(v, [0.0, 0.0]);
}
