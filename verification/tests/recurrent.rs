use ocelotl::arith::Arith;
use ocelotl::recurrent::lstm_step;

struct F32;

impl Arith<f32> for F32 {
    fn from_bits(&self, bits: u32) -> f32 {
        f32::from_bits(bits)
    }

    fn from_int(&self, n: i64) -> f32 {
        n as f32
    }

    fn from_size(&self, n: usize) -> f32 {
        n as f32
    }

    fn add(&self, a: f32, b: f32) -> f32 {
        a + b
    }

    fn sub(&self, a: f32, b: f32) -> f32 {
        a - b
    }

    fn mul(&self, a: f32, b: f32) -> f32 {
        a * b
    }

    fn div(&self, a: f32, b: f32) -> f32 {
        a / b
    }

    fn neg(&self, a: f32) -> f32 {
        -a
    }

    fn exp(&self, a: f32) -> f32 {
        a.exp()
    }

    fn sqrt(&self, a: f32) -> f32 {
        a.sqrt()
    }

    fn tanh(&self, a: f32) -> f32 {
        a.tanh()
    }

    fn fused(&self, a: f32, b: f32, c: f32) -> f32 {
        a.mul_add(b, c)
    }

    fn abs(&self, a: f32) -> f32 {
        a.abs()
    }

    fn powf(&self, a: f32, b: f32) -> f32 {
        a.powf(b)
    }

    fn sin(&self, a: f32) -> f32 {
        a.sin()
    }

    fn cos(&self, a: f32) -> f32 {
        a.cos()
    }

    fn less(&self, a: f32, b: f32) -> bool {
        a < b
    }

    fn at_most(&self, a: f32, b: f32) -> bool {
        a <= b
    }

    fn is_negative(&self, a: f32) -> bool {
        a.is_sign_negative()
    }

    fn is_finite(&self, a: f32) -> bool {
        a.is_finite()
    }

    fn to_bits(&self, a: f32) -> u32 {
        a.to_bits()
    }

    fn show(&self, a: f32) -> String {
        format!("{a}")
    }
}

fn step_with_bias(bias: [f32; 4], h0: f32, c0: f32) -> (f32, f32) {
    let mut h_out = [0.0_f32; 1];
    let mut c_out = [0.0_f32; 1];
    lstm_step(
        &F32,
        &[0.0],
        &[h0],
        &[c0],
        &[0.0; 4],
        &[0.0; 4],
        Some(&bias),
        None,
        1,
        &mut h_out,
        &mut c_out,
    )
    .expect("lstm_step");
    (h_out[0], c_out[0])
}

#[test]
fn lstm_forget_gate_is_the_second_quarter() {
    let (_, c) = step_with_bias([-30.0, -30.0, 0.0, 0.0], 0.0, 5.0);
    assert!(c.abs() < 1e-6, "forget gate did not clear the cell: c={c}");
    let (_, c) = step_with_bias([-30.0, 30.0, 0.0, 0.0], 0.0, 5.0);
    assert!((c - 5.0).abs() < 1e-5, "forget gate did not retain: c={c}");
}

#[test]
fn lstm_input_and_cell_gates_are_the_first_and_third_quarters() {
    let (_, c) = step_with_bias([30.0, -30.0, 1.0, 0.0], 0.0, 99.0);
    assert!(
        (c - 0.761_594_16).abs() < 1e-5,
        "i/g gates wrong: c={c} (expected tanh(1))"
    );
}

#[test]
fn lstm_output_gate_is_the_fourth_quarter() {
    let (h, c) = step_with_bias([30.0, -30.0, 1.0, -30.0], 0.0, 0.0);
    assert!(c.abs() > 0.7, "precondition: cell should be non-zero");
    assert!(h.abs() < 1e-6, "output gate did not close: h={h}");
    let (h, c) = step_with_bias([30.0, -30.0, 1.0, 30.0], 0.0, 0.0);
    assert!((h - c.tanh()).abs() < 1e-5, "h={h} c={c}");
}

#[test]
fn lstm_step_matches_a_fully_hand_computed_step() {
    let mut h_out = [0.0_f32; 1];
    let mut c_out = [0.0_f32; 1];
    lstm_step(
        &F32,
        &[1.0],
        &[0.0],
        &[0.0],
        &[0.0, 0.0, 1.0, 0.0],
        &[0.0; 4],
        None,
        None,
        1,
        &mut h_out,
        &mut c_out,
    )
    .expect("lstm_step");
    assert!((c_out[0] - 0.380_797_08).abs() < 1e-6, "c={}", c_out[0]);
    assert!((h_out[0] - 0.181_699_74).abs() < 1e-6, "h={}", h_out[0]);
}

#[test]
fn lstm_step_uses_the_recurrent_weights() {
    let mut h_out = [0.0_f32; 1];
    let mut c_out = [0.0_f32; 1];
    lstm_step(
        &F32,
        &[0.0],
        &[1.0],
        &[0.0],
        &[0.0; 4],
        &[0.0, 0.0, 1.0, 0.0],
        None,
        None,
        1,
        &mut h_out,
        &mut c_out,
    )
    .expect("lstm_step");
    assert!((c_out[0] - 0.380_797_08).abs() < 1e-6, "c={}", c_out[0]);
}

#[test]
fn lstm_step_rejects_shape_mismatches() {
    let mut h_out = [0.0_f32; 1];
    let mut c_out = [0.0_f32; 1];
    assert!(
        lstm_step(
            &F32,
            &[0.0],
            &[0.0],
            &[0.0],
            &[0.0; 4],
            &[0.0; 8],
            None,
            None,
            1,
            &mut h_out,
            &mut c_out
        )
        .is_err()
    );
}
