use ocelotl::arith::Arith;
use ocelotl::conv::{
    batch_norm_inference, conv2d, conv_out_len, depthwise_conv1d, depthwise_conv2d,
};

struct F32;

impl Arith<f32> for F32 {
    fn from_bits(&self, bits: u32) -> f32 {
        f32::from_bits(bits)
    }

    fn from_int(&self, n: i64) -> f32 {
        n as f32
    }

    fn from_size(&self, n: usize) -> f32 {
        n as f32
    }

    fn add(&self, a: f32, b: f32) -> f32 {
        a + b
    }

    fn sub(&self, a: f32, b: f32) -> f32 {
        a - b
    }

    fn mul(&self, a: f32, b: f32) -> f32 {
        a * b
    }

    fn div(&self, a: f32, b: f32) -> f32 {
        a / b
    }

    fn neg(&self, a: f32) -> f32 {
        -a
    }

    fn exp(&self, a: f32) -> f32 {
        a.exp()
    }

    fn sqrt(&self, a: f32) -> f32 {
        a.sqrt()
    }

    fn tanh(&self, a: f32) -> f32 {
        a.tanh()
    }

    fn fused(&self, a: f32, b: f32, c: f32) -> f32 {
        a.mul_add(b, c)
    }

    fn abs(&self, a: f32) -> f32 {
        a.abs()
    }

    fn powf(&self, a: f32, b: f32) -> f32 {
        a.powf(b)
    }

    fn sin(&self, a: f32) -> f32 {
        a.sin()
    }

    fn cos(&self, a: f32) -> f32 {
        a.cos()
    }

    fn less(&self, a: f32, b: f32) -> bool {
        a < b
    }

    fn at_most(&self, a: f32, b: f32) -> bool {
        a <= b
    }

    fn is_negative(&self, a: f32) -> bool {
        a.is_sign_negative()
    }

    fn is_finite(&self, a: f32) -> bool {
        a.is_finite()
    }

    fn to_bits(&self, a: f32) -> u32 {
        a.to_bits()
    }

    fn show(&self, a: f32) -> String {
        format!("{a}")
    }
}

#[test]
fn conv_out_len_matches_the_standard_formula() {
    assert_eq!(conv_out_len(100, 9, 1, 4), 100);
    assert_eq!(conv_out_len(128, 3, 2, 1), 64);
    assert_eq!(conv_out_len(1101, 3, 2, 1), 551);
    assert_eq!(conv_out_len(551, 3, 2, 1), 276);
    assert_eq!(conv_out_len(276, 3, 2, 1), 138);
}

#[test]
fn conv2d_matches_hand_computed_output() {
    let input = [1.0_f32, 2.0, 3.0, 4.0, 5.0, 6.0, 7.0, 8.0, 9.0];
    let weight = [1.0_f32, 0.0, 0.0, 1.0];
    let mut out = [0.0_f32; 4];
    conv2d(
        &F32,
        &input,
        1,
        3,
        3,
        &weight,
        None,
        1,
        (2, 2),
        (1, 1),
        (0, 0),
        &mut out,
    )
    .expect("conv2d");
    assert_eq!(out, [6.0, 8.0, 12.0, 14.0]);
}

#[test]
fn conv2d_applies_bias_and_zero_padding() {
    let input = [5.0_f32];
    let weight = [1.0_f32; 9];
    let bias = [0.25_f32];
    let mut out = [0.0_f32; 1];
    conv2d(
        &F32,
        &input,
        1,
        1,
        1,
        &weight,
        Some(&bias),
        1,
        (3, 3),
        (1, 1),
        (1, 1),
        &mut out,
    )
    .expect("conv2d");
    assert_eq!(out, [5.25]);
}

#[test]
fn conv2d_sums_across_input_channels() {
    let input = [1.0_f32, 10.0];
    let weight = [1.0_f32, 2.0];
    let mut out = [0.0_f32; 1];
    conv2d(
        &F32,
        &input,
        2,
        1,
        1,
        &weight,
        None,
        1,
        (1, 1),
        (1, 1),
        (0, 0),
        &mut out,
    )
    .expect("conv2d");
    assert_eq!(out, [21.0]);
}

#[test]
fn depthwise_conv2d_does_not_mix_channels() {
    let input = [1.0_f32, 10.0];
    let weight = [1.0_f32, 2.0];
    let mut out = [0.0_f32; 2];
    depthwise_conv2d(
        &F32,
        &input,
        2,
        1,
        1,
        &weight,
        None,
        (1, 1),
        (1, 1),
        (0, 0),
        &mut out,
    )
    .expect("depthwise");
    assert_eq!(out, [1.0, 20.0]);
}

#[test]
fn depthwise_conv2d_matches_hand_computed_stride_two() {
    let input: Vec<f32> = (1..=16).map(|v| v as f32).collect();
    let weight = [1.0_f32; 4];
    let mut out = [0.0_f32; 4];
    depthwise_conv2d(
        &F32,
        &input,
        1,
        4,
        4,
        &weight,
        None,
        (2, 2),
        (2, 2),
        (0, 0),
        &mut out,
    )
    .expect("depthwise");
    assert_eq!(out, [14.0, 22.0, 46.0, 54.0]);
}

#[test]
fn depthwise_conv1d_is_length_preserving_with_same_padding() {
    let input = vec![1.0_f32; 20];
    let weight = vec![1.0_f32; 9];
    let mut out = vec![0.0_f32; 20];
    depthwise_conv1d(&F32, &input, 1, 20, &weight, None, 9, 1, 4, &mut out).expect("dw1d");
    assert_eq!(out[10], 9.0);
    assert_eq!(out[0], 5.0);
    assert_eq!(out[19], 5.0);
}

#[test]
fn depthwise_conv1d_matches_hand_computed_per_channel_filters() {
    let input = [1.0_f32, 2.0, 3.0, 4.0, 5.0, 6.0];
    let weight = [1.0_f32, 1.0, 0.0, 2.0];
    let mut out = [0.0_f32; 4];
    depthwise_conv1d(&F32, &input, 2, 3, &weight, None, 2, 1, 0, &mut out).expect("dw1d");
    assert_eq!(out, [3.0, 5.0, 10.0, 12.0]);
}

#[test]
fn batch_norm_inference_matches_hand_computed_affine() {
    let mut x = [5.0_f32, 1.0];
    batch_norm_inference(&F32, &mut x, 1, 2, &[1.0], &[4.0], &[3.0], &[0.5], 0.0).expect("bn");
    assert!((x[0] - 6.5).abs() < 1e-6, "got {}", x[0]);
    assert!((x[1] - 0.5).abs() < 1e-6, "got {}", x[1]);
}

#[test]
fn batch_norm_inference_uses_fixed_stats_not_the_input() {
    let mut x = [10.0_f32, 20.0, 10.0, 20.0];
    batch_norm_inference(
        &F32,
        &mut x,
        2,
        2,
        &[0.0, 100.0],
        &[1.0, 1.0],
        &[1.0, 1.0],
        &[0.0, 0.0],
        0.0,
    )
    .expect("bn");
    assert_eq!(x, [10.0, 20.0, -90.0, -80.0]);
}

#[test]
fn batch_norm_inference_rejects_bad_shapes_and_eps() {
    let mut x = [1.0_f32, 2.0];
    assert!(
        batch_norm_inference(&F32, &mut x, 1, 2, &[0.0, 0.0], &[1.0], &[1.0], &[0.0], 0.0).is_err()
    );
    assert!(batch_norm_inference(&F32, &mut x, 1, 2, &[0.0], &[1.0], &[1.0], &[0.0], -1.0).is_err());
}
