use ocelotl::arith::Arith;
use ocelotl::cpu_backend::CpuKernelBackend;
use ocelotl::error::{KernelError, OcelotlError};
use ocelotl::launch::{
    check_transfer, linear_position, prepare_linear_launch, prepare_rope_launch, rope_pair,
    validate_linear_d, CubeClKernelBackend, CubeClRopeLayout, WORKGROUP_SIZE,
};
use ocelotl::modes::require_gpu;
use ocelotl::rope::{rope_apply_inplace, rope_trig_tables};
use ocelotl::types::{DType, Device};

struct F32;

impl Arith<f32> for F32 {
    fn from_bits(&self, bits: u32) -> f32 {
        f32::from_bits(bits)
    }

    fn from_int(&self, n: i64) -> f32 {
        n as f32
    }

    fn from_size(&self, n: usize) -> f32 {
        n as f32
    }

    fn add(&self, a: f32, b: f32) -> f32 {
        a + b
    }

    fn sub(&self, a: f32, b: f32) -> f32 {
        a - b
    }

    fn mul(&self, a: f32, b: f32) -> f32 {
        a * b
    }

    fn div(&self, a: f32, b: f32) -> f32 {
        a / b
    }

    fn neg(&self, a: f32) -> f32 {
        -a
    }

    fn exp(&self, a: f32) -> f32 {
        a.exp()
    }

    fn sqrt(&self, a: f32) -> f32 {
        a.sqrt()
    }

    fn tanh(&self, a: f32) -> f32 {
        a.tanh()
    }

    fn fused(&self, a: f32, b: f32, c: f32) -> f32 {
        a.mul_add(b, c)
    }

    fn abs(&self, a: f32) -> f32 {
        a.abs()
    }

    fn powf(&self, a: f32, b: f32) -> f32 {
        a.powf(b)
    }

    fn sin(&self, a: f32) -> f32 {
        a.sin()
    }

    fn cos(&self, a: f32) -> f32 {
        a.cos()
    }

    fn less(&self, a: f32, b: f32) -> bool {
        a < b
    }

    fn at_most(&self, a: f32, b: f32) -> bool {
        a <= b
    }

    fn is_negative(&self, a: f32) -> bool {
        a.is_sign_negative()
    }

    fn is_finite(&self, a: f32) -> bool {
        a.is_finite()
    }

    fn to_bits(&self, a: f32) -> u32 {
        a.to_bits()
    }

    fn show(&self, a: f32) -> String {
        format!("{a}")
    }
}

fn cubecl_message(err: OcelotlError) -> String {
    match err {
        OcelotlError::Kernel(KernelError { backend, message }) => {
            assert_eq!(backend, "cubecl");
            message
        }
        other => panic!("expected CubeCL KernelError, got {other:?}"),
    }
}

#[test]
fn cubecl_backend_advertises_gpu_device() {
    let backend = CubeClKernelBackend::new_gpu(0);

    assert_eq!(backend.name(), "cubecl");
    assert_eq!(backend.context().device, Device::Gpu { ordinal: 0 });
    require_gpu(&backend.context().device).unwrap();
}

#[test]
fn require_gpu_refuses_the_cpu() {
    assert!(require_gpu(&Device::Cpu).is_err());
}

#[test]
fn wgpu_rope_rejects_invalid_shape_before_launch() {
    let actual = [1.0_f32, 2.0, 3.0, 4.0, 5.0, 6.0];

    let err = prepare_rope_launch(actual.len(), &CubeClRopeLayout::contiguous_f32(3))
        .expect_err("odd head_dim must be rejected before CubeCL launch");

    let message = cubecl_message(err);
    assert!(
        message.contains("head_dim must be even"),
        "unexpected diagnostic: {message}"
    );
}

#[test]
fn wgpu_rope_rejects_non_f32_dtype_before_launch() {
    let actual = [1.0_f32, 2.0, 3.0, 4.0];
    let layout = CubeClRopeLayout {
        dtype: DType::BF16,
        head_dim: 4,
        row_stride: 4,
    };

    let err = prepare_rope_launch(actual.len(), &layout)
        .expect_err("unsupported dtype must be rejected before CubeCL launch");

    let message = cubecl_message(err);
    assert!(message.contains("F32"), "unexpected diagnostic: {message}");
}

#[test]
fn wgpu_rope_rejects_non_contiguous_stride_before_launch() {
    let actual = [1.0_f32, 2.0, 3.0, 4.0];
    let layout = CubeClRopeLayout {
        dtype: DType::F32,
        head_dim: 4,
        row_stride: 8,
    };

    let err = prepare_rope_launch(actual.len(), &layout)
        .expect_err("non-contiguous layout must be rejected before CubeCL launch");

    let message = cubecl_message(err);
    assert!(
        message.contains("contiguous"),
        "unexpected diagnostic: {message}"
    );
}

#[test]
fn rope_launch_counts_the_pairs() {
    let pairs = prepare_rope_launch(24, &CubeClRopeLayout::contiguous_f32(8)).expect("pairs");
    assert_eq!(pairs, 12);
}

#[test]
fn rotating_every_pair_rotates_the_heads() {
    let input: Vec<f32> = (0..24).map(|i| (i as f32) * 0.25 - 1.0).collect();
    let head_dim = 8;
    let (cos, sin) = rope_trig_tables(&F32, head_dim, 3, 10_000.0);
    let pairs = prepare_rope_launch(input.len(), &CubeClRopeLayout::contiguous_f32(head_dim))
        .expect("pairs") as usize;
    let mut output = vec![0.0_f32; input.len()];
    for pair in 0..pairs {
        rope_pair(&F32, &input, &cos, &sin, head_dim, pair, &mut output);
    }
    let mut expected = input.clone();
    rope_apply_inplace(&F32, &mut expected, head_dim, 3, 10_000.0).expect("rope");
    assert_eq!(output, expected);
}

#[test]
fn linear_launch_covers_every_output() {
    assert_eq!(prepare_linear_launch(17, 23, 13).expect("launch"), (1, WORKGROUP_SIZE));
    assert_eq!(prepare_linear_launch(16, 23, 16).expect("launch"), (1, WORKGROUP_SIZE));
    assert_eq!(prepare_linear_launch(257, 23, 1).expect("launch"), (2, WORKGROUP_SIZE));
}

#[test]
fn every_linear_position_makes_the_projection() {
    let rows = 17;
    let in_features = 23;
    let out_features = 13;
    let x: Vec<f32> = (0..rows * in_features)
        .map(|i| ((i as f32) * 0.013).sin())
        .collect();
    let w: Vec<f32> = (0..out_features * in_features)
        .map(|i| ((i as f32) * 0.019).cos())
        .collect();
    let b: Vec<f32> = (0..out_features).map(|i| (i as f32) * 0.05).collect();

    let mut scalar = vec![0.0_f32; rows * out_features];
    CpuKernelBackend::scalar()
        .linear_out_by_in(
            &F32,
            &x,
            rows,
            in_features,
            &w,
            out_features,
            Some(&b),
            &mut scalar,
        )
        .expect("scalar linear_out_by_in must succeed");

    let mut output = vec![0.0_f32; rows * out_features];
    for cell in 0..rows * out_features + 5 {
        linear_position(
            &F32,
            &x,
            &w,
            Some(&b),
            in_features,
            out_features,
            cell,
            &mut output,
        );
    }
    assert_eq!(output, scalar);
}

#[test]
fn linear_buffers_must_fit_the_shape() {
    validate_linear_d(6, 2, 3, 12, 4, Some(4), 8).expect("fits");
    assert!(validate_linear_d(5, 2, 3, 12, 4, Some(4), 8).is_err());
    assert!(validate_linear_d(6, 2, 3, 11, 4, Some(4), 8).is_err());
    assert!(validate_linear_d(6, 2, 3, 12, 4, Some(3), 8).is_err());
    assert!(validate_linear_d(6, 2, 3, 12, 4, None, 9).is_err());
}

#[test]
fn a_transfer_of_another_length_is_refused() {
    check_transfer("cubecl", "read ", 4, " values, expected ", 4).expect("same length");
    let err = check_transfer("cubecl", "read ", 3, " values, expected ", 4).expect_err("short");
    assert_eq!(cubecl_message(err), "read 3 values, expected 4");
}
