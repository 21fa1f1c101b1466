use ocelotl::arith::{Arith, Widen};
use ocelotl::relpos::{rel_shift, sinusoidal_rel_pos_table};

struct F32;

impl Arith<f32> for F32 {
    fn from_bits(&self, bits: u32) -> f32 {
        f32::from_bits(bits)
    }

    fn from_int(&self, n: i64) -> f32 {
        n as f32
    }

    fn from_size(&self, n: usize) -> f32 {
        n as f32
    }

    fn add(&self, a: f32, b: f32) -> f32 {
        a + b
    }

    fn sub(&self, a: f32, b: f32) -> f32 {
        a - b
    }

    fn mul(&self, a: f32, b: f32) -> f32 {
        a * b
    }

    fn div(&self, a: f32, b: f32) -> f32 {
        a / b
    }

    fn neg(&self, a: f32) -> f32 {
        -a
    }

    fn exp(&self, a: f32) -> f32 {
        a.exp()
    }

    fn sqrt(&self, a: f32) -> f32 {
        a.sqrt()
    }

    fn tanh(&self, a: f32) -> f32 {
        a.tanh()
    }

    fn fused(&self, a: f32, b: f32, c: f32) -> f32 {
        a.mul_add(b, c)
    }

    fn abs(&self, a: f32) -> f32 {
        a.abs()
    }

    fn powf(&self, a: f32, b: f32) -> f32 {
        a.powf(b)
    }

    fn sin(&self, a: f32) -> f32 {
        a.sin()
    }

    fn cos(&self, a: f32) -> f32 {
        a.cos()
    }

    fn less(&self, a: f32, b: f32) -> bool {
        a < b
    }

    fn at_most(&self, a: f32, b: f32) -> bool {
        a <= b
    }

    fn is_negative(&self, a: f32) -> bool {
        a.is_sign_negative()
    }

    fn is_finite(&self, a: f32) -> bool {
        a.is_finite()
    }

    fn to_bits(&self, a: f32) -> u32 {
        a.to_bits()
    }

    fn show(&self, a: f32) -> String {
        format!("{a}")
    }
}

struct F64;

impl Arith<f64> for F64 {
    fn from_bits(&self, bits: u32) -> f64 {
        f64::from(f32::from_bits(bits))
    }

    fn from_int(&self, n: i64) -> f64 {
        n as f64
    }

    fn from_size(&self, n: usize) -> f64 {
        n as f64
    }

    fn add(&self, a: f64, b: f64) -> f64 {
        a + b
    }

    fn sub(&self, a: f64, b: f64) -> f64 {
        a - b
    }

    fn mul(&self, a: f64, b: f64) -> f64 {
        a * b
    }

    fn div(&self, a: f64, b: f64) -> f64 {
        a / b
    }

    fn neg(&self, a: f64) -> f64 {
        -a
    }

    fn exp(&self, a: f64) -> f64 {
        a.exp()
    }

    fn sqrt(&self, a: f64) -> f64 {
        a.sqrt()
    }

    fn tanh(&self, a: f64) -> f64 {
        a.tanh()
    }

    fn fused(&self, a: f64, b: f64, c: f64) -> f64 {
        a.mul_add(b, c)
    }

    fn abs(&self, a: f64) -> f64 {
        a.abs()
    }

    fn powf(&self, a: f64, b: f64) -> f64 {
        a.powf(b)
    }

    fn sin(&self, a: f64) -> f64 {
        a.sin()
    }

    fn cos(&self, a: f64) -> f64 {
        a.cos()
    }

    fn less(&self, a: f64, b: f64) -> bool {
        a < b
    }

    fn at_most(&self, a: f64, b: f64) -> bool {
        a <= b
    }

    fn is_negative(&self, a: f64) -> bool {
        a.is_sign_negative()
    }

    fn is_finite(&self, a: f64) -> bool {
        a.is_finite()
    }

    fn to_bits(&self, a: f64) -> u32 {
        (a as f32).to_bits()
    }

    fn show(&self, a: f64) -> String {
        format!("{a}")
    }
}

struct Convert;

impl Widen<f32, f64> for Convert {
    fn widen(&self, a: f32) -> f64 {
        f64::from(a)
    }

    fn narrow(&self, a: f64) -> f32 {
        a as f32
    }
}

#[test]
fn rel_shift_matches_the_hand_traced_three_by_five_case() {
    let input: Vec<f32> = (0..3)
        .flat_map(|i| (0..5).map(move |k| (10 * i + k) as f32))
        .collect();
    let mut out = vec![0.0_f32; 9];
    rel_shift(&input, 3, &mut out).expect("rel_shift");
    assert_eq!(out, vec![2.0, 3.0, 4.0, 11.0, 12.0, 13.0, 20.0, 21.0, 22.0]);
}

#[test]
fn rel_shift_matches_the_hand_worked_four_by_seven_case() {
    let input: Vec<f32> = (0..4)
        .flat_map(|i| (0..7).map(move |k| (10 * i + k) as f32))
        .collect();
    let mut out = vec![0.0_f32; 16];
    rel_shift(&input, 4, &mut out).expect("rel_shift");
    assert_eq!(
        out,
        vec![
            3.0, 4.0, 5.0, 6.0,
            12.0, 13.0, 14.0, 15.0,
            21.0, 22.0, 23.0, 24.0,
            30.0, 31.0, 32.0, 33.0,
        ]
    );
}

#[test]
fn rel_shift_diagonal_is_the_zero_offset_column() {
    let rows = 5;
    let width = 2 * rows - 1;
    let mut input = vec![0.0_f32; rows * width];
    for i in 0..rows {
        input[i * width + (rows - 1)] = 1.0;
    }
    let mut out = vec![0.0_f32; rows * rows];
    rel_shift(&input, rows, &mut out).expect("rel_shift");
    for i in 0..rows {
        for j in 0..rows {
            let expected = if i == j { 1.0 } else { 0.0 };
            assert_eq!(
                out[i * rows + j],
                expected,
                "centre column did not land on the diagonal at ({i},{j})"
            );
        }
    }
}

#[test]
fn rel_shift_rejects_shape_mismatch() {
    let mut out = vec![0.0_f32; 9];
    assert!(rel_shift(&[0.0; 10], 3, &mut out).is_err());
}

#[test]
fn sinusoidal_table_centre_row_is_offset_zero() {
    let len = 4;
    let dim = 8;
    let t = sinusoidal_rel_pos_table(&F32, &F64, &Convert, len, dim, 10_000.0).expect("table");
    assert_eq!(t.len(), (2 * len - 1) * dim);
    let centre = (len - 1) * dim;
    for i in 0..dim / 2 {
        assert_eq!(t[centre + 2 * i], 0.0, "sin at offset 0");
        assert_eq!(t[centre + 2 * i + 1], 1.0, "cos at offset 0");
    }
}

#[test]
fn sinusoidal_table_is_ordered_descending_from_positive_to_negative() {
    let t = sinusoidal_rel_pos_table(&F32, &F64, &Convert, 2, 4, 10_000.0).expect("table");
    let dim = 4;
    let sin_first = t[0];
    let sin_last = t[dim * 2];
    assert!(
        (sin_first - 1.0_f32.sin()).abs() < 1e-6,
        "row 0 should be +1"
    );
    assert!(
        (sin_last + 1.0_f32.sin()).abs() < 1e-6,
        "last row should be -1"
    );
    assert!(
        sin_first > 0.0 && sin_last < 0.0,
        "ordering is not descending"
    );
}

#[test]
fn sinusoidal_table_rejects_odd_dim_and_bad_base() {
    assert!(sinusoidal_rel_pos_table(&F32, &F64, &Convert, 4, 7, 10_000.0).is_err());
    assert!(sinusoidal_rel_pos_table(&F32, &F64, &Convert, 4, 8, 0.0).is_err());
}

#[test]
fn a_bad_base_is_refused_whatever_the_size_of_the_table() {
    for base in [0.0, -1.0, f32::INFINITY, f32::NAN] {
        assert!(
            sinusoidal_rel_pos_table(&F32, &F64, &Convert, usize::MAX, 2, base).is_err(),
            "base {base}"
        );
    }
}
