use ocelotl::activation::{add_inplace, gelu_inplace, gelu_scalar};
use ocelotl::arith::Arith;
use ocelotl::attention::{validate_scaled_dot_product_attention, Heads};
use ocelotl::attention_modes::{attend_chunk, attention_value_weighted_sum_avx2};
use ocelotl::cpu_backend::CpuKernelBackend;
use ocelotl::decoder::{
    attention_decoder_causal_d, attention_decoder_causal_scalar, attention_decoder_cross_scalar,
    attention_decoder_incremental_cache_scalar, attention_decoder_incremental_d,
    attention_decoder_incremental_scalar, attention_encoder_scalar, copy_into_d,
};
use ocelotl::error::{KernelError, OcelotlError, UnsupportedError};
use ocelotl::lanes::dot_f32_avx2;
use ocelotl::modes::{
    attention_in_parallel, cache_attention_in_parallel, matmul_in_parallel, require_gpu,
    CpuFeatures, CpuKernelMode, LinearPlan, PARALLEL_LINEAR_MIN_OUTPUTS, PARALLEL_SDPA_MIN_SEQ,
};
use ocelotl::norms::{add_positional_embedding_d, layer_norm_d, layer_norm_scalar};
use ocelotl::partition::{
    linear_chunk, linear_output_chunk, matmul_chunk, rows_per_chunk, tiled_rows_per_chunk,
};
use ocelotl::shapes::{
    validate_attention_decoder_cross_shapes, validate_attention_decoder_incremental_cache_shapes,
    validate_attention_encoder_shapes, validate_linear_out_by_in, validate_matmul,
};
use ocelotl::softmax::softmax;
use ocelotl::tensor::{DeviceTensor, HostRead, Residency, TensorStore};
use ocelotl::types::Device;
use rayon::iter::{IndexedParallelIterator, ParallelIterator};
use rayon::slice::ParallelSliceMut;

struct F32;

impl Arith<f32> for F32 {
    fn from_bits(&self, bits: u32) -> f32 {
        f32::from_bits(bits)
    }

    fn from_int(&self, n: i64) -> f32 {
        n as f32
    }

    fn from_size(&self, n: usize) -> f32 {
        n as f32
    }

    fn add(&self, a: f32, b: f32) -> f32 {
        a + b
    }

    fn sub(&self, a: f32, b: f32) -> f32 {
        a - b
    }

    fn mul(&self, a: f32, b: f32) -> f32 {
        a * b
    }

    fn div(&self, a: f32, b: f32) -> f32 {
        a / b
    }

    fn neg(&self, a: f32) -> f32 {
        -a
    }

    fn exp(&self, a: f32) -> f32 {
        a.exp()
    }

    fn sqrt(&self, a: f32) -> f32 {
        a.sqrt()
    }

    fn tanh(&self, a: f32) -> f32 {
        a.tanh()
    }

    fn fused(&self, a: f32, b: f32, c: f32) -> f32 {
        a.mul_add(b, c)
    }

    fn abs(&self, a: f32) -> f32 {
        a.abs()
    }

    fn powf(&self, a: f32, b: f32) -> f32 {
        a.powf(b)
    }

    fn sin(&self, a: f32) -> f32 {
        a.sin()
    }

    fn cos(&self, a: f32) -> f32 {
        a.cos()
    }

    fn less(&self, a: f32, b: f32) -> bool {
        a < b
    }

    fn at_most(&self, a: f32, b: f32) -> bool {
        a <= b
    }

    fn is_negative(&self, a: f32) -> bool {
        a.is_sign_negative()
    }

    fn is_finite(&self, a: f32) -> bool {
        a.is_finite()
    }

    fn to_bits(&self, a: f32) -> u32 {
        a.to_bits()
    }

    fn show(&self, a: f32) -> String {
        format!("{a}")
    }
}

const HOST: CpuFeatures = CpuFeatures {
    x86_64: true,
    avx2: true,
    fma: true,
};

fn owned(tensor: &DeviceTensor, store: &TensorStore<f32>) -> Vec<f32> {
    match tensor.to_host_owned(store) {
        HostRead::Ready(values) => values,
        HostRead::Readback { .. } => panic!("expected values on the host"),
    }
}

/// A CPU backend with the thread pool that its chunks are spread over.
struct Pooled {
    plan: CpuKernelBackend,
    pool: rayon::ThreadPool,
}

impl Pooled {
    fn with_mode_and_threads(mode: CpuKernelMode, threads: usize) -> Result<Self, OcelotlError> {
        let plan = CpuKernelBackend::with_mode_and_threads(mode, HOST, threads)?;
        let pool = rayon::ThreadPoolBuilder::new()
            .num_threads(plan.num_threads())
            .build()
            .expect("thread pool");
        Ok(Pooled { plan, pool })
    }

    fn linear_out_by_in(
        &self,
        ar: &F32,
        x: &[f32],
        rows: usize,
        in_features: usize,
        w: &[f32],
        out_features: usize,
        bias: Option<&[f32]>,
        out: &mut [f32],
    ) -> Result<(), OcelotlError> {
        let plan = self.plan.linear_plan(rows, out_features);
        if plan == LinearPlan::Serial {
            return self
                .plan
                .linear_out_by_in(ar, x, rows, in_features, w, out_features, bias, out);
        }
        validate_linear_out_by_in(
            x.len(),
            rows,
            in_features,
            w.len(),
            out_features,
            bias.map(|b| b.len()),
            out.len(),
        )?;
        let mode = self.plan.mode();
        if plan == LinearPlan::ByOutput {
            let size = tiled_rows_per_chunk(out_features, self.plan.num_threads());
            self.pool.install(|| {
                out.par_chunks_mut(size).enumerate().for_each(|(c, chunk)| {
                    linear_output_chunk(ar, mode, x, c * size, w, bias, chunk);
                });
            });
        } else {
            let size = tiled_rows_per_chunk(rows, self.plan.num_threads());
            self.pool.install(|| {
                out.par_chunks_mut(size * out_features)
                    .enumerate()
                    .for_each(|(c, chunk)| {
                        linear_chunk(
                            ar,
                            mode,
                            x,
                            c * size,
                            in_features,
                            w,
                            out_features,
                            bias,
                            chunk,
                        );
                    });
            });
        }
        Ok(())
    }

    fn matmul(
        &self,
        ar: &F32,
        a: &[f32],
        a_shape: (usize, usize),
        b: &[f32],
        b_shape: (usize, usize),
        out: &mut [f32],
    ) -> Result<(), OcelotlError> {
        if !matmul_in_parallel(self.plan.pooled(), a_shape.0) {
            return self.plan.matmul(ar, a, a_shape, b, b_shape, out);
        }
        let (m, k, n) = validate_matmul(a.len(), a_shape, b.len(), b_shape, out.len())?;
        let mode = self.plan.mode();
        let size = rows_per_chunk(m, self.plan.num_threads());
        self.pool.install(|| {
            out.par_chunks_mut(size * n)
                .enumerate()
                .for_each(|(c, chunk)| matmul_chunk(ar, mode, a, c * size, k, b, n, chunk));
        });
        Ok(())
    }

    fn attend(
        &self,
        ar: &F32,
        mode: CpuKernelMode,
        heads: Heads,
        scale: f32,
        q: &[f32],
        k: &[f32],
        v: &[f32],
        cells: usize,
        out: &mut [f32],
    ) {
        self.pool.install(|| {
            out.par_chunks_mut(cells * heads.dim)
                .enumerate()
                .for_each(|(c, chunk)| {
                    attend_chunk(ar, mode, heads, scale, q, k, v, c * cells, chunk);
                });
        });
    }

    fn scaled_dot_product_attention(
        &self,
        ar: &F32,
        q: &[f32],
        k: &[f32],
        v: &[f32],
        seq_len: usize,
        num_q_heads: usize,
        num_kv_heads: usize,
        head_dim: usize,
        out: &mut [f32],
    ) -> Result<(), OcelotlError> {
        if !attention_in_parallel(self.plan.pooled(), seq_len) {
            return self.plan.scaled_dot_product_attention(
                ar,
                q,
                k,
                v,
                seq_len,
                num_q_heads,
                num_kv_heads,
                head_dim,
                out,
            );
        }
        validate_scaled_dot_product_attention(
            q.len(),
            k.len(),
            v.len(),
            seq_len,
            num_q_heads,
            num_kv_heads,
            head_dim,
            out.len(),
        )?;
        let heads = Heads {
            queries: num_q_heads,
            keys: num_kv_heads,
            dim: head_dim,
            rows: seq_len,
            causal: true,
        };
        let scale = 1.0 / (head_dim as f32).sqrt();
        let cells = rows_per_chunk(seq_len, self.plan.num_threads()) * num_q_heads;
        self.attend(ar, CpuKernelMode::Scalar, heads, scale, q, k, v, cells, out);
        Ok(())
    }

    fn own_heads(n_head: usize, head_dim: usize, rows: usize) -> Heads {
        Heads {
            queries: n_head,
            keys: n_head,
            dim: head_dim,
            rows,
            causal: false,
        }
    }

    fn attention_encoder_d(
        &self,
        ar: &F32,
        q: &[f32],
        k: &[f32],
        v: &[f32],
        seq: usize,
        n_head: usize,
        head_dim: usize,
        scale: f32,
        out: &mut [f32],
    ) -> Result<(), OcelotlError> {
        assert!(attention_in_parallel(self.plan.pooled(), seq));
        validate_attention_encoder_shapes(
            q.len(),
            k.len(),
            v.len(),
            seq,
            n_head,
            head_dim,
            out.len(),
        )?;
        let cells = rows_per_chunk(seq, self.plan.num_threads()) * n_head;
        let heads = Pooled::own_heads(n_head, head_dim, seq);
        self.attend(ar, self.plan.encoder_mode(seq), heads, scale, q, k, v, cells, out);
        Ok(())
    }

    fn attention_decoder_cross_d(
        &self,
        ar: &F32,
        q: &[f32],
        k: &[f32],
        v: &[f32],
        q_seq: usize,
        kv_seq: usize,
        n_head: usize,
        head_dim: usize,
        scale: f32,
        out: &mut [f32],
    ) -> Result<(), OcelotlError> {
        assert!(attention_in_parallel(self.plan.pooled(), kv_seq));
        validate_attention_decoder_cross_shapes(
            q.len(),
            k.len(),
            v.len(),
            q_seq,
            kv_seq,
            n_head,
            head_dim,
            out.len(),
        )?;
        let heads = Pooled::own_heads(n_head, head_dim, kv_seq);
        self.attend(ar, self.plan.mode(), heads, scale, q, k, v, 1, out);
        Ok(())
    }

    fn attention_decoder_incremental_cache_d(
        &self,
        ar: &F32,
        q: &[f32],
        key_cache: &[f32],
        value_cache: &[f32],
        visible_seq: usize,
        cache_capacity: usize,
        n_head: usize,
        head_dim: usize,
        scale: f32,
        out: &mut [f32],
    ) -> Result<(), OcelotlError> {
        assert!(cache_attention_in_parallel(
            self.plan.pooled(),
            visible_seq,
            n_head
        ));
        validate_attention_decoder_incremental_cache_shapes(
            q.len(),
            key_cache.len(),
            value_cache.len(),
            visible_seq,
            cache_capacity,
            n_head,
            head_dim,
            out.len(),
        )?;
        let visible = visible_seq * n_head * head_dim;
        let heads = Pooled::own_heads(n_head, head_dim, visible_seq);
        self.attend(
            ar,
            self.plan.mode(),
            heads,
            scale,
            q,
            &key_cache[..visible],
            &value_cache[..visible],
            1,
            out,
        );
        Ok(())
    }
}

fn assert_close_with_tolerance(got: &[f32], expected: &[f32], tolerance: f32, label: &str) {
    assert_eq!(
        got.len(),
        expected.len(),
        "{label} length mismatch: got {} expected {}",
        got.len(),
        expected.len()
    );
    for (idx, (g, e)) in got.iter().zip(expected.iter()).enumerate() {
        let abs = (g - e).abs();
        let rel = if e.abs() > 1e-6 { abs / e.abs() } else { abs };
        assert!(
            abs <= tolerance || rel <= tolerance,
            "{label} drifted at idx {idx}: expected={e} got={g} abs={abs} rel={rel}"
        );
    }
}

#[test]
fn cpu_backend_defaults_to_scalar_mode() {
    let backend = CpuKernelBackend::default();

    assert_eq!(backend.mode(), CpuKernelMode::Scalar);
    assert_eq!(backend.name(), "cpu");
    assert_eq!(backend.context().device, Device::Cpu);
}

#[test]
fn cpu_backend_rejects_gpu_requirement_with_typed_unsupported_error() {
    let backend = CpuKernelBackend::default();

    let err = require_gpu(&backend.context().device).expect_err("CPU backend must not satisfy GPU requirement");

    match err {
        OcelotlError::Unsupported(UnsupportedError {
            feature,
            requested,
            supported,
        }) => {
            assert_eq!(feature, "gpu_backend");
            assert_eq!(requested.as_deref(), Some("gpu"));
            assert_eq!(supported, vec!["cpu".to_string()]);
        }
        other => panic!("expected UnsupportedError, got {other:?}"),
    }
}

#[test]
fn cpu_backend_can_select_optimized_mode() {
    let backend = CpuKernelBackend::optimized();

    assert_eq!(backend.mode(), CpuKernelMode::Optimized);
    assert_eq!(CpuKernelMode::Optimized.as_str(), "optimized");
}

#[test]
fn public_cpu_mode_constructor_validates_before_storing_mode() {
    let scalar = CpuKernelBackend::with_mode(CpuKernelMode::Scalar, HOST)
        .expect("scalar mode must always be supported");
    assert_eq!(scalar.mode(), CpuKernelMode::Scalar);

    let optimized = CpuKernelBackend::with_mode(CpuKernelMode::Optimized, HOST)
        .expect("optimized mode must always be supported");
    assert_eq!(optimized.mode(), CpuKernelMode::Optimized);

    let avx2 = CpuKernelBackend::with_mode(CpuKernelMode::Avx2, HOST);
    assert_eq!(
        avx2.expect("advertised AVX2 + FMA must be accepted").mode(),
        CpuKernelMode::Avx2
    );
    for (avx2, fma) in [(true, false), (false, true), (false, false)] {
        let host = CpuFeatures {
            x86_64: true,
            avx2,
            fma,
        };
        assert!(
            CpuKernelBackend::with_mode(CpuKernelMode::Avx2, host).is_err(),
            "safe construction must reject AVX2 without both AVX2 and FMA"
        );
    }

    let other = CpuFeatures {
        x86_64: false,
        avx2: false,
        fma: false,
    };
    assert!(
        CpuKernelBackend::with_mode(CpuKernelMode::Avx2, other).is_err(),
        "safe construction must reject AVX2 outside x86_64"
    );
}

#[test]
fn optimized_matmul_matches_scalar_for_non_square_shape() {
    let a = [
        0.25_f32, -0.5, 1.0,
        1.5, 0.75, -1.25,
    ];
    let b = [
        0.5_f32, -1.0, 0.25, 2.0,
        -0.75, 0.5, 1.25, -0.5,
        1.0, 1.5, -1.0, 0.75,
    ];
    let scalar = CpuKernelBackend::scalar();
    let optimized = CpuKernelBackend::optimized();
    let mut scalar_out = [0.0_f32; 8];
    let mut optimized_out = [0.0_f32; 8];

    scalar
        .matmul(&F32, &a, (2, 3), &b, (3, 4), &mut scalar_out)
        .unwrap();
    optimized
        .matmul(&F32, &a, (2, 3), &b, (3, 4), &mut optimized_out)
        .unwrap();

    for (got, want) in optimized_out.iter().zip(scalar_out.iter()) {
        assert!(
            (got - want).abs() <= 1.0e-6,
            "optimized matmul drifted: got {got}, want {want}"
        );
    }
}

#[test]
fn optimized_linear_out_by_in_matches_scalar_with_bias() {
    let x = [
        1.0_f32, -2.0, 0.5,
        -0.25, 1.5, 2.0,
    ];
    let w = [
        0.5_f32, -1.0, 0.25,
        -0.75, 0.5, 1.25,
        1.0, 1.5, -1.0,
        0.0, -0.5, 0.75,
    ];
    let bias = [0.1_f32, -0.2, 0.3, -0.4];
    let scalar = CpuKernelBackend::scalar();
    let optimized = CpuKernelBackend::optimized();
    let mut scalar_out = [0.0_f32; 8];
    let mut optimized_out = [0.0_f32; 8];

    scalar
        .linear_out_by_in(&F32, &x, 2, 3, &w, 4, Some(&bias), &mut scalar_out)
        .unwrap();
    optimized
        .linear_out_by_in(&F32, &x, 2, 3, &w, 4, Some(&bias), &mut optimized_out)
        .unwrap();

    for (got, want) in optimized_out.iter().zip(scalar_out.iter()) {
        assert!(
            (got - want).abs() <= 1.0e-6,
            "optimized linear_out_by_in drifted: got {got}, want {want}"
        );
    }
}

#[test]
fn scalar_linear_out_by_in_handles_row_and_output_tile_tails() {
    let rows = 5;
    let in_features = 3;
    let out_features = 5;
    let x = [
        1.0_f32, 2.0, 3.0,
        4.0, 5.0, 6.0,
        7.0, 8.0, 9.0,
        10.0, 11.0, 12.0,
        13.0, 14.0, 15.0,
    ];
    let w = [
        0.5_f32, 1.0, -0.5,
        -1.0, 0.25, 0.75,
        1.5, -0.25, 0.0,
        0.0, -0.5, 2.0,
        -0.75, 0.5, 1.25,
    ];
    let bias = [0.1_f32, -0.2, 0.3, -0.4, 0.5];
    let mut got = [0.0_f32; 25];
    let mut want = [0.0_f32; 25];

    CpuKernelBackend::scalar()
        .linear_out_by_in(
            &F32,
            &x,
            rows,
            in_features,
            &w,
            out_features,
            Some(&bias),
            &mut got,
        )
        .unwrap();

    for row in 0..rows {
        for out_dim in 0..out_features {
            let mut acc = bias[out_dim];
            for in_dim in 0..in_features {
                acc += x[row * in_features + in_dim] * w[out_dim * in_features + in_dim];
            }
            want[row * out_features + out_dim] = acc;
        }
    }

    assert_eq!(got, want);
}

#[test]
fn threaded_linear_out_by_in_matches_serial_bit_for_bit() {
    let rows = 64usize;
    let in_features = 17;
    let out_features = 13;
    let x: Vec<f32> = (0..(rows * in_features))
        .map(|i| ((i as f32) * 0.013).sin())
        .collect();
    let w: Vec<f32> = (0..(out_features * in_features))
        .map(|i| ((i as f32) * 0.019).cos())
        .collect();
    let b: Vec<f32> = (0..out_features).map(|i| (i as f32) * 0.05).collect();

    let mut serial = vec![0.0_f32; rows * out_features];
    let serial_backend = CpuKernelBackend::scalar();
    serial_backend
        .linear_out_by_in(
            &F32,
            &x,
            rows,
            in_features,
            &w,
            out_features,
            Some(&b),
            &mut serial,
        )
        .expect("serial linear must succeed");

    let mut threaded = vec![0.0_f32; rows * out_features];
    let threaded_backend = Pooled::with_mode_and_threads(CpuKernelMode::Scalar, 4)
        .expect("4-thread backend must build");
    threaded_backend
        .linear_out_by_in(
            &F32,
            &x,
            rows,
            in_features,
            &w,
            out_features,
            Some(&b),
            &mut threaded,
        )
        .expect("threaded linear must succeed");

    assert_eq!(
        serial, threaded,
        "threaded linear_out_by_in must produce bit-identical output to serial"
    );
}

#[test]
fn threaded_linear_out_by_in_single_row_splits_output_axis_bit_for_bit() {
    let rows = 1usize;
    let in_features = 17;
    let out_features = PARALLEL_LINEAR_MIN_OUTPUTS + 7;
    let x: Vec<f32> = (0..(rows * in_features))
        .map(|i| ((i as f32) * 0.013).sin())
        .collect();
    let w: Vec<f32> = (0..(out_features * in_features))
        .map(|i| ((i as f32) * 0.019).cos())
        .collect();
    let b: Vec<f32> = (0..out_features).map(|i| (i as f32) * 0.002).collect();

    let mut serial = vec![0.0_f32; rows * out_features];
    CpuKernelBackend::scalar()
        .linear_out_by_in(
            &F32,
            &x,
            rows,
            in_features,
            &w,
            out_features,
            Some(&b),
            &mut serial,
        )
        .expect("serial linear must succeed");

    let mut threaded = vec![0.0_f32; rows * out_features];
    Pooled::with_mode_and_threads(CpuKernelMode::Scalar, 4)
        .expect("4-thread backend must build")
        .linear_out_by_in(
            &F32,
            &x,
            rows,
            in_features,
            &w,
            out_features,
            Some(&b),
            &mut threaded,
        )
        .expect("threaded output-axis linear must succeed");

    assert_eq!(
        serial, threaded,
        "threaded output-axis linear_out_by_in must match serial bit-for-bit"
    );
}

#[test]
fn avx2_linear_out_by_in_matches_scalar_within_tolerance() {
    let rows = 64usize;
    let in_features = 200;
    let out_features = 33;
    let x: Vec<f32> = (0..(rows * in_features))
        .map(|i| ((i as f32) * 0.011).sin())
        .collect();
    let w: Vec<f32> = (0..(out_features * in_features))
        .map(|i| ((i as f32) * 0.017).cos())
        .collect();
    let b: Vec<f32> = (0..out_features).map(|i| (i as f32) * 0.05).collect();

    let mut scalar = vec![0.0_f32; rows * out_features];
    CpuKernelBackend::scalar()
        .linear_out_by_in(
            &F32,
            &x,
            rows,
            in_features,
            &w,
            out_features,
            Some(&b),
            &mut scalar,
        )
        .expect("scalar must succeed");

    let mut avx2 = vec![0.0_f32; rows * out_features];
    CpuKernelBackend::with_mode_checked(CpuKernelMode::Avx2, HOST)
        .expect("AVX2 backend must build on host that advertises avx2+fma")
        .linear_out_by_in(&F32, &x, rows, in_features, &w, out_features, Some(&b), &mut avx2)
        .expect("AVX2 must succeed");

    for (idx, (a, s)) in avx2.iter().zip(scalar.iter()).enumerate() {
        let abs = (a - s).abs();
        let rel = if s.abs() > 1e-6 { abs / s.abs() } else { abs };
        assert!(
            abs <= 1e-4 || rel <= 1e-4,
            "AVX2 output drifted at idx {idx}: scalar={s} avx2={a} abs={abs} rel={rel}"
        );
    }
}

#[test]
fn avx2_linear_out_by_in_single_row_matches_scalar_within_tolerance() {
    let rows = 1usize;
    let in_features = 384;
    let out_features = 257;
    let x: Vec<f32> = (0..(rows * in_features))
        .map(|i| ((i as f32) * 0.009).sin())
        .collect();
    let w: Vec<f32> = (0..(out_features * in_features))
        .map(|i| ((i as f32) * 0.014).cos())
        .collect();

    let mut scalar = vec![0.0_f32; rows * out_features];
    CpuKernelBackend::scalar()
        .linear_out_by_in(&F32, &x, rows, in_features, &w, out_features, None, &mut scalar)
        .expect("scalar must succeed");

    let mut avx2 = vec![0.0_f32; rows * out_features];
    CpuKernelBackend::with_mode_checked(CpuKernelMode::Avx2, HOST)
        .expect("AVX2 backend must build on host that advertises avx2+fma")
        .linear_out_by_in(&F32, &x, rows, in_features, &w, out_features, None, &mut avx2)
        .expect("AVX2 must succeed");

    for (idx, (a, s)) in avx2.iter().zip(scalar.iter()).enumerate() {
        let abs = (a - s).abs();
        let rel = if s.abs() > 1e-6 { abs / s.abs() } else { abs };
        assert!(
            abs <= 1e-4 || rel <= 1e-4,
            "AVX2 single-row output drifted at idx {idx}: scalar={s} avx2={a} abs={abs} rel={rel}"
        );
    }
}

#[test]
fn avx2_dot_f32_matches_scalar_within_tolerance() {
    let a: Vec<f32> = (0..130).map(|i| ((i as f32) * 0.011).sin()).collect();
    let b: Vec<f32> = (0..130).map(|i| ((i as f32) * 0.017).cos()).collect();
    let scalar = a.iter().zip(b.iter()).map(|(x, y)| x * y).sum::<f32>();
    let avx2 = dot_f32_avx2(&F32, &a, 0, &b, 0, a.len());
    let abs = (avx2 - scalar).abs();
    let rel = if scalar.abs() > 1e-6 {
        abs / scalar.abs()
    } else {
        abs
    };
    assert!(
        abs <= 1e-4 || rel <= 1e-4,
        "AVX2 dot drifted: scalar={scalar} avx2={avx2} abs={abs} rel={rel}"
    );
}

#[test]
fn avx2_attention_value_weighted_sum_matches_scalar_within_tolerance() {
    let seq = 17usize;
    let state = 24usize;
    let head_offset = 8usize;
    let head_dim = 10usize;
    let probs: Vec<f32> = (0..seq).map(|i| 0.001 + (i as f32) * 0.003).collect();
    let v: Vec<f32> = (0..seq * state)
        .map(|i| ((i as f32) * 0.017).cos())
        .collect();

    let mut scalar = vec![0.0_f32; head_dim];
    for d in 0..head_dim {
        for (ki, &p) in probs.iter().enumerate() {
            scalar[d] += p * v[ki * state + head_offset + d];
        }
    }

    let mut avx2 = vec![0.0_f32; head_dim];
    attention_value_weighted_sum_avx2(
        &F32,
        &probs,
        &v,
        seq,
        state,
        head_offset,
        head_dim,
        &mut avx2,
        0,
    );

    for (idx, (a, s)) in avx2.iter().zip(scalar.iter()).enumerate() {
        let abs = (a - s).abs();
        let rel = if s.abs() > 1e-6 { abs / s.abs() } else { abs };
        assert!(
            abs <= 1e-4 || rel <= 1e-4,
            "AVX2 weighted sum drifted at idx {idx}: scalar={s} avx2={a} abs={abs} rel={rel}"
        );
    }
}

#[test]
fn threaded_avx2_linear_out_by_in_single_row_matches_serial_avx2_bit_for_bit() {
    let rows = 1usize;
    let in_features = 384;
    let out_features = PARALLEL_LINEAR_MIN_OUTPUTS + 7;
    let x: Vec<f32> = (0..(rows * in_features))
        .map(|i| ((i as f32) * 0.009).sin())
        .collect();
    let w: Vec<f32> = (0..(out_features * in_features))
        .map(|i| ((i as f32) * 0.014).cos())
        .collect();

    let mut serial = vec![0.0_f32; rows * out_features];
    CpuKernelBackend::with_mode_checked(CpuKernelMode::Avx2, HOST)
        .expect("AVX2 backend must build on host that advertises avx2+fma")
        .linear_out_by_in(&F32, &x, rows, in_features, &w, out_features, None, &mut serial)
        .expect("serial AVX2 must succeed");

    let mut threaded = vec![0.0_f32; rows * out_features];
    Pooled::with_mode_and_threads(CpuKernelMode::Avx2, 4)
        .expect("threaded AVX2 backend must build")
        .linear_out_by_in(&F32, &x, rows, in_features, &w, out_features, None, &mut threaded)
        .expect("threaded output-axis AVX2 must succeed");

    assert_eq!(
        serial, threaded,
        "threaded output-axis AVX2 must match serial AVX2 bit-for-bit"
    );
}

#[test]
fn avx2_linear_out_by_in_threaded_matches_serial_avx2_within_tolerance() {
    let rows = 96usize;
    let in_features = 256;
    let out_features = 64;
    let x: Vec<f32> = (0..(rows * in_features))
        .map(|i| ((i as f32) * 0.007).sin())
        .collect();
    let w: Vec<f32> = (0..(out_features * in_features))
        .map(|i| ((i as f32) * 0.013).cos())
        .collect();

    let mut serial = vec![0.0_f32; rows * out_features];
    CpuKernelBackend::with_mode_checked(CpuKernelMode::Avx2, HOST)
        .unwrap()
        .linear_out_by_in(&F32, &x, rows, in_features, &w, out_features, None, &mut serial)
        .unwrap();

    let mut threaded = vec![0.0_f32; rows * out_features];
    Pooled::with_mode_and_threads(CpuKernelMode::Avx2, 4)
        .unwrap()
        .linear_out_by_in(&F32, &x, rows, in_features, &w, out_features, None, &mut threaded)
        .unwrap();

    assert_eq!(
        serial, threaded,
        "AVX2 + threads must match AVX2 serial bit-for-bit"
    );
}

#[test]
fn threaded_linear_out_by_in_falls_back_to_serial_for_small_inputs() {
    let rows = 3usize;
    let in_features = 5;
    let out_features = 4;
    let x: Vec<f32> = (0..(rows * in_features))
        .map(|i| (i as f32) * 0.1)
        .collect();
    let w: Vec<f32> = (0..(out_features * in_features))
        .map(|i| (i as f32) * -0.07)
        .collect();

    let mut serial = vec![0.0_f32; rows * out_features];
    CpuKernelBackend::scalar()
        .linear_out_by_in(&F32, &x, rows, in_features, &w, out_features, None, &mut serial)
        .unwrap();

    let mut threaded = vec![0.0_f32; rows * out_features];
    Pooled::with_mode_and_threads(CpuKernelMode::Scalar, 4)
        .unwrap()
        .linear_out_by_in(&F32, &x, rows, in_features, &w, out_features, None, &mut threaded)
        .unwrap();

    assert_eq!(serial, threaded);
}

#[test]
fn optimized_attention_matches_scalar_backend() {
    let q = [
        1.0_f32, 0.0,
        0.0, 1.0,
        0.5, 0.5,
    ];
    let k = q;
    let v = [
        1.0_f32, 2.0,
        3.0, 4.0,
        100.0, -50.0,
    ];
    let scalar = CpuKernelBackend::scalar();
    let optimized = CpuKernelBackend::optimized();
    let mut scalar_out = [0.0_f32; 6];
    let mut optimized_out = [0.0_f32; 6];

    scalar
        .scaled_dot_product_attention(&F32, &q, &k, &v, 3, 1, 1, 2, &mut scalar_out)
        .unwrap();
    optimized
        .scaled_dot_product_attention(&F32, &q, &k, &v, 3, 1, 1, 2, &mut optimized_out)
        .unwrap();

    for (got, want) in optimized_out.iter().zip(scalar_out.iter()) {
        assert!(
            (got - want).abs() <= 1.0e-6,
            "optimized attention drifted: got {got}, want {want}"
        );
    }
}

#[test]
fn threaded_matmul_scalar_matches_serial_bit_for_bit() {
    let m = 64usize;
    let k = 19usize;
    let n = 17usize;
    let a: Vec<f32> = (0..(m * k)).map(|i| ((i as f32) * 0.013).sin()).collect();
    let b: Vec<f32> = (0..(k * n)).map(|i| ((i as f32) * 0.019).cos()).collect();

    let mut serial = vec![0.0_f32; m * n];
    CpuKernelBackend::scalar()
        .matmul(&F32, &a, (m, k), &b, (k, n), &mut serial)
        .expect("serial scalar matmul must succeed");

    let mut threaded = vec![0.0_f32; m * n];
    Pooled::with_mode_and_threads(CpuKernelMode::Scalar, 4)
        .expect("4-thread scalar backend must build")
        .matmul(&F32, &a, (m, k), &b, (k, n), &mut threaded)
        .expect("threaded matmul must succeed");

    assert_eq!(
        serial, threaded,
        "threaded matmul must be bit-identical to serial scalar"
    );
}

#[test]
fn threaded_matmul_optimized_matches_serial_bit_for_bit() {
    let m = 96usize;
    let k = 33usize;
    let n = 25usize;
    let a: Vec<f32> = (0..(m * k)).map(|i| ((i as f32) * 0.011).sin()).collect();
    let b: Vec<f32> = (0..(k * n)).map(|i| ((i as f32) * 0.017).cos()).collect();

    let mut serial = vec![0.0_f32; m * n];
    CpuKernelBackend::optimized()
        .matmul(&F32, &a, (m, k), &b, (k, n), &mut serial)
        .expect("serial optimized matmul must succeed");

    let mut threaded = vec![0.0_f32; m * n];
    Pooled::with_mode_and_threads(CpuKernelMode::Optimized, 4)
        .expect("4-thread optimized backend must build")
        .matmul(&F32, &a, (m, k), &b, (k, n), &mut threaded)
        .expect("threaded matmul must succeed");

    assert_eq!(
        serial, threaded,
        "threaded optimized matmul must be bit-identical to serial optimized"
    );
}

#[test]
fn threaded_matmul_falls_back_to_serial_for_small_inputs() {
    let m = 5usize;
    let k = 7usize;
    let n = 3usize;
    let a: Vec<f32> = (0..(m * k)).map(|i| (i as f32) * 0.1).collect();
    let b: Vec<f32> = (0..(k * n)).map(|i| (i as f32) * -0.07).collect();

    let mut serial = vec![0.0_f32; m * n];
    CpuKernelBackend::scalar()
        .matmul(&F32, &a, (m, k), &b, (k, n), &mut serial)
        .unwrap();

    let mut threaded = vec![0.0_f32; m * n];
    Pooled::with_mode_and_threads(CpuKernelMode::Scalar, 4)
        .unwrap()
        .matmul(&F32, &a, (m, k), &b, (k, n), &mut threaded)
        .unwrap();

    assert_eq!(serial, threaded);
}

#[test]
fn threaded_sdpa_scalar_matches_serial_bit_for_bit() {
    let seq_len = 48usize;
    let num_q_heads = 4usize;
    let num_kv_heads = 2usize;
    let head_dim = 6usize;
    let q: Vec<f32> = (0..(seq_len * num_q_heads * head_dim))
        .map(|i| ((i as f32) * 0.013).sin())
        .collect();
    let k: Vec<f32> = (0..(seq_len * num_kv_heads * head_dim))
        .map(|i| ((i as f32) * 0.019).cos())
        .collect();
    let v: Vec<f32> = (0..(seq_len * num_kv_heads * head_dim))
        .map(|i| ((i as f32) * 0.023).sin())
        .collect();

    let mut serial = vec![0.0_f32; seq_len * num_q_heads * head_dim];
    CpuKernelBackend::scalar()
        .scaled_dot_product_attention(
            &F32,
            &q,
            &k,
            &v,
            seq_len,
            num_q_heads,
            num_kv_heads,
            head_dim,
            &mut serial,
        )
        .expect("serial SDPA must succeed");

    let mut threaded = vec![0.0_f32; seq_len * num_q_heads * head_dim];
    Pooled::with_mode_and_threads(CpuKernelMode::Scalar, 4)
        .expect("4-thread scalar backend must build")
        .scaled_dot_product_attention(
            &F32,
            &q,
            &k,
            &v,
            seq_len,
            num_q_heads,
            num_kv_heads,
            head_dim,
            &mut threaded,
        )
        .expect("threaded SDPA must succeed");

    assert_eq!(
        serial, threaded,
        "threaded scalar SDPA must be bit-identical to serial scalar SDPA"
    );
}

#[test]
fn threaded_sdpa_optimized_matches_serial_bit_for_bit() {
    let seq_len = 64usize;
    let num_q_heads = 6usize;
    let num_kv_heads = 2usize;
    let head_dim = 8usize;
    let q: Vec<f32> = (0..(seq_len * num_q_heads * head_dim))
        .map(|i| ((i as f32) * 0.011).sin())
        .collect();
    let k: Vec<f32> = (0..(seq_len * num_kv_heads * head_dim))
        .map(|i| ((i as f32) * 0.017).cos())
        .collect();
    let v: Vec<f32> = (0..(seq_len * num_kv_heads * head_dim))
        .map(|i| ((i as f32) * 0.021).sin())
        .collect();

    let mut serial = vec![0.0_f32; seq_len * num_q_heads * head_dim];
    CpuKernelBackend::optimized()
        .scaled_dot_product_attention(
            &F32,
            &q,
            &k,
            &v,
            seq_len,
            num_q_heads,
            num_kv_heads,
            head_dim,
            &mut serial,
        )
        .expect("serial optimized SDPA must succeed");

    let mut threaded = vec![0.0_f32; seq_len * num_q_heads * head_dim];
    Pooled::with_mode_and_threads(CpuKernelMode::Optimized, 4)
        .expect("4-thread optimized backend must build")
        .scaled_dot_product_attention(
            &F32,
            &q,
            &k,
            &v,
            seq_len,
            num_q_heads,
            num_kv_heads,
            head_dim,
            &mut threaded,
        )
        .expect("threaded SDPA must succeed");

    assert_eq!(
        serial, threaded,
        "threaded optimized SDPA must be bit-identical to serial optimized SDPA"
    );
}

#[test]
fn threaded_sdpa_falls_back_to_serial_for_small_seq() {
    let seq_len = 3usize;
    let num_q_heads = 2usize;
    let num_kv_heads = 1usize;
    let head_dim = 2usize;
    let q = [
        1.0_f32, 0.0, 0.0, 1.0, 0.5, 0.5, 0.25, 0.75, -1.0, 1.0, 0.3, 0.7,
    ];
    let k = [1.0_f32, 0.0, 0.5, 0.5, -1.0, 1.0];
    let v = [1.0_f32, 2.0, 3.0, 4.0, 5.0, 6.0];

    let mut serial = vec![0.0_f32; seq_len * num_q_heads * head_dim];
    CpuKernelBackend::scalar()
        .scaled_dot_product_attention(
            &F32,
            &q,
            &k,
            &v,
            seq_len,
            num_q_heads,
            num_kv_heads,
            head_dim,
            &mut serial,
        )
        .unwrap();

    let mut threaded = vec![0.0_f32; seq_len * num_q_heads * head_dim];
    Pooled::with_mode_and_threads(CpuKernelMode::Scalar, 4)
        .unwrap()
        .scaled_dot_product_attention(
            &F32,
            &q,
            &k,
            &v,
            seq_len,
            num_q_heads,
            num_kv_heads,
            head_dim,
            &mut threaded,
        )
        .unwrap();

    assert_eq!(serial, threaded);
}

#[test]
fn cpu_linear_d_matches_linear_out_by_in_bit_for_bit() {
    let rows = 7usize;
    let in_features = 23usize;
    let out_features = 13usize;
    let x_vec: Vec<f32> = (0..rows * in_features)
        .map(|i| ((i as f32) * 0.013).sin())
        .collect();
    let w_vec: Vec<f32> = (0..out_features * in_features)
        .map(|i| ((i as f32) * 0.019).cos())
        .collect();
    let b_vec: Vec<f32> = (0..out_features).map(|i| (i as f32) * 0.05).collect();

    let backend = CpuKernelBackend::scalar();

    let mut slice_out = vec![0.0_f32; rows * out_features];
    backend
        .linear_out_by_in(
            &F32,
            &x_vec,
            rows,
            in_features,
            &w_vec,
            out_features,
            Some(&b_vec),
            &mut slice_out,
        )
        .unwrap();

    let mut store: TensorStore<f32> = TensorStore::new();
    let x_h = DeviceTensor::from_host(&mut store, x_vec.clone());
    let w_h = DeviceTensor::from_host(&mut store, w_vec.clone());
    let b_h = DeviceTensor::from_host(&mut store, b_vec.clone());
    let out_h = DeviceTensor::host_zeros(&F32, &mut store, rows * out_features);
    let mut values = owned(&out_h, &store);
    backend
        .linear_out_by_in(
            &F32,
            x_h.borrow_host_slice(&store).unwrap(),
            rows,
            in_features,
            w_h.borrow_host_slice(&store).unwrap(),
            out_features,
            Some(b_h.borrow_host_slice(&store).unwrap()),
            &mut values,
        )
        .unwrap();
    out_h.write_from_host_slice(&mut store, &values).unwrap();
    let handle_out = owned(&out_h, &store);

    assert_eq!(
        slice_out, handle_out,
        "linear_d must be bit-identical to linear_out_by_in on the CPU backend"
    );
}

#[test]
fn cpu_linear_d_handles_no_bias() {
    let rows = 3usize;
    let in_features = 5usize;
    let out_features = 4usize;
    let x_vec: Vec<f32> = (0..rows * in_features).map(|i| (i as f32) * 0.1).collect();
    let w_vec: Vec<f32> = (0..out_features * in_features)
        .map(|i| (i as f32) * -0.07)
        .collect();

    let backend = CpuKernelBackend::scalar();

    let mut slice_out = vec![0.0_f32; rows * out_features];
    backend
        .linear_out_by_in(
            &F32,
            &x_vec,
            rows,
            in_features,
            &w_vec,
            out_features,
            None,
            &mut slice_out,
        )
        .unwrap();

    let mut store: TensorStore<f32> = TensorStore::new();
    let x_h = DeviceTensor::from_host(&mut store, x_vec);
    let w_h = DeviceTensor::from_host(&mut store, w_vec);
    let out_h = DeviceTensor::host_zeros(&F32, &mut store, rows * out_features);
    let mut values = owned(&out_h, &store);
    backend
        .linear_out_by_in(
            &F32,
            x_h.borrow_host_slice(&store).unwrap(),
            rows,
            in_features,
            w_h.borrow_host_slice(&store).unwrap(),
            out_features,
            None,
            &mut values,
        )
        .unwrap();
    out_h.write_from_host_slice(&mut store, &values).unwrap();
    assert_eq!(slice_out, owned(&out_h, &store));
}

#[test]
fn cpu_add_inplace_d_matches_scalar_add_bit_for_bit() {
    let lhs_vec: Vec<f32> = (0..37).map(|i| (i as f32) * 0.013).collect();
    let rhs_vec: Vec<f32> = (0..37).map(|i| ((i as f32) * 0.019).sin()).collect();
    let mut expected = lhs_vec.clone();
    for (l, r) in expected.iter_mut().zip(rhs_vec.iter()) {
        *l += *r;
    }

    let mut store: TensorStore<f32> = TensorStore::new();
    let lhs_h = DeviceTensor::from_host(&mut store, lhs_vec.clone());
    let lhs = lhs_h.borrow_host_slice_mut(&mut store).unwrap();
    add_inplace(&F32, lhs, &rhs_vec).unwrap();
    assert_eq!(owned(&lhs_h, &store), expected);
}

#[test]
fn cpu_add_inplace_d_rejects_mismatched_lengths() {
    let mut lhs = vec![1.0_f32, 2.0, 3.0];
    let rhs = vec![1.0_f32, 2.0];
    let err = add_inplace(&F32, &mut lhs, &rhs).expect_err("must reject");
    assert!(matches!(err, OcelotlError::Kernel(_)));
}

#[test]
fn cpu_gelu_inplace_d_matches_whisper_primitive_bit_for_bit() {
    let host: Vec<f32> = (-32..32).map(|i| (i as f32) * 0.25).collect();
    let mut expected = host.clone();
    for v in expected.iter_mut() {
        *v = gelu_scalar(&F32, *v);
    }

    let mut store: TensorStore<f32> = TensorStore::new();
    let t = DeviceTensor::from_host(&mut store, host);
    gelu_inplace(&F32, t.borrow_host_slice_mut(&mut store).unwrap());
    assert_eq!(owned(&t, &store), expected);
}

#[test]
fn cpu_layer_norm_d_matches_whisper_primitive_bit_for_bit() {
    let rows = 17usize;
    let hidden = 23usize;
    let eps = 1e-5_f32;
    let x_vec: Vec<f32> = (0..rows * hidden)
        .map(|i| ((i as f32) * 0.011).sin())
        .collect();
    let weight: Vec<f32> = (0..hidden).map(|i| 1.0 + (i as f32) * 0.01).collect();
    let bias: Vec<f32> = (0..hidden).map(|i| (i as f32) * -0.005).collect();

    let mut expected = vec![0.0_f32; rows * hidden];
    layer_norm_scalar(&F32, &x_vec, rows, hidden, &weight, &bias, eps, &mut expected);

    let mut got = vec![0.0_f32; rows * hidden];
    layer_norm_d(&F32, &x_vec, rows, hidden, &weight, &bias, eps, &mut got).unwrap();
    assert_eq!(got, expected);
}

#[test]
fn cpu_layer_norm_d_rejects_shape_mismatch() {
    let x = vec![0.0_f32; 12];
    let weight = vec![1.0_f32; 4];
    let bias = vec![0.0_f32; 4];
    let mut out = vec![0.0_f32; 11];
    let err = layer_norm_d(&F32, &x, 3, 4, &weight, &bias, 1e-5, &mut out)
        .expect_err("must reject");
    assert!(matches!(err, OcelotlError::Kernel(_)));
}

#[test]
fn cpu_add_positional_embedding_d_matches_scalar_bit_for_bit() {
    let rows = 5usize;
    let cols = 11usize;
    let pe_rows = 12usize;
    let start_pos = 3usize;
    let x_vec: Vec<f32> = (0..rows * cols).map(|i| (i as f32) * 0.02).collect();
    let pe_vec: Vec<f32> = (0..pe_rows * cols).map(|i| (i as f32) * -0.013).collect();

    let mut expected = x_vec.clone();
    for row in 0..rows {
        let dst_start = row * cols;
        let src_start = (start_pos + row) * cols;
        for col in 0..cols {
            expected[dst_start + col] += pe_vec[src_start + col];
        }
    }

    let mut store: TensorStore<f32> = TensorStore::new();
    let x_h = DeviceTensor::from_host(&mut store, x_vec);
    let x = x_h.borrow_host_slice_mut(&mut store).unwrap();
    add_positional_embedding_d(&F32, x, rows, cols, &pe_vec, pe_rows, start_pos).unwrap();
    assert_eq!(owned(&x_h, &store), expected);
}

#[test]
fn cpu_add_positional_embedding_d_rejects_out_of_range_start_pos() {
    let mut x = vec![0.0_f32; 6];
    let pe = vec![0.0_f32; 12];
    let err = add_positional_embedding_d(&F32, &mut x, 2, 3, &pe, 4, 3)
        .expect_err("must reject");
    assert!(matches!(err, OcelotlError::Kernel(_)));
}

#[test]
fn upload_default_returns_host_resident_tensor() {
    let mut store: TensorStore<f32> = TensorStore::new();
    let t = DeviceTensor::from_host(&mut store, vec![1.0, 2.0, 3.0]);
    assert_eq!(t.residency(&store), Residency::Host);
    assert_eq!(owned(&t, &store), vec![1.0, 2.0, 3.0]);
}

#[test]
fn alloc_default_returns_zero_filled_host_tensor() {
    let mut store: TensorStore<f32> = TensorStore::new();
    let t = DeviceTensor::host_zeros(&F32, &mut store, 4);
    assert_eq!(t.residency(&store), Residency::Host);
    assert_eq!(owned(&t, &store), vec![0.0, 0.0, 0.0, 0.0]);
}

#[test]
fn cpu_attention_encoder_d_matches_scalar_bit_for_bit() {
    let seq = 8usize;
    let n_head = 2usize;
    let head_dim = 4usize;
    let state = n_head * head_dim;
    let scale = 1.0_f32 / (head_dim as f32).sqrt();

    let q: Vec<f32> = (0..seq * state)
        .map(|i| ((i as f32) * 0.013).sin())
        .collect();
    let k: Vec<f32> = (0..seq * state)
        .map(|i| ((i as f32) * 0.019).cos())
        .collect();
    let v: Vec<f32> = (0..seq * state)
        .map(|i| ((i as f32) * 0.023).sin())
        .collect();

    let mut scalar_out = vec![0.0_f32; seq * state];
    attention_encoder_scalar(&F32, &q, &k, &v, seq, n_head, head_dim, scale, &mut scalar_out);

    let backend = CpuKernelBackend::scalar();
    let mut got = vec![0.0_f32; seq * state];
    backend
        .attention_encoder_d(&F32, &q, &k, &v, seq, n_head, head_dim, scale, &mut got)
        .expect("CPU attention_encoder_d must succeed");

    assert_eq!(
        got, scalar_out,
        "CPU override must match scalar bit-for-bit"
    );
}

#[test]
fn cpu_attention_encoder_d_threaded_matches_scalar_bit_for_bit() {
    let seq = PARALLEL_SDPA_MIN_SEQ;
    let n_head = 2usize;
    let head_dim = 4usize;
    let state = n_head * head_dim;
    let scale = 1.0_f32 / (head_dim as f32).sqrt();

    let q: Vec<f32> = (0..seq * state)
        .map(|i| ((i as f32) * 0.013).sin())
        .collect();
    let k: Vec<f32> = (0..seq * state)
        .map(|i| ((i as f32) * 0.019).cos())
        .collect();
    let v: Vec<f32> = (0..seq * state)
        .map(|i| ((i as f32) * 0.023).sin())
        .collect();

    let mut scalar_out = vec![0.0_f32; seq * state];
    attention_encoder_scalar(&F32, &q, &k, &v, seq, n_head, head_dim, scale, &mut scalar_out);

    let backend = Pooled::with_mode_and_threads(CpuKernelMode::Scalar, 4)
        .expect("threaded scalar backend must build");
    let mut got = vec![0.0_f32; seq * state];
    backend
        .attention_encoder_d(&F32, &q, &k, &v, seq, n_head, head_dim, scale, &mut got)
        .expect("threaded CPU attention_encoder_d must succeed");

    assert_eq!(
        got, scalar_out,
        "threaded CPU override must match scalar bit-for-bit"
    );
}

#[test]
fn cpu_attention_encoder_d_threaded_avx2_matches_scalar_within_tolerance() {
    let seq = PARALLEL_SDPA_MIN_SEQ;
    let n_head = 2usize;
    let head_dim = 8usize;
    let state = n_head * head_dim;
    let scale = 1.0_f32 / (head_dim as f32).sqrt();

    let q: Vec<f32> = (0..seq * state)
        .map(|i| ((i as f32) * 0.013).sin())
        .collect();
    let k: Vec<f32> = (0..seq * state)
        .map(|i| ((i as f32) * 0.019).cos())
        .collect();
    let v: Vec<f32> = (0..seq * state)
        .map(|i| ((i as f32) * 0.023).sin())
        .collect();

    let mut scalar_out = vec![0.0_f32; seq * state];
    attention_encoder_scalar(&F32, &q, &k, &v, seq, n_head, head_dim, scale, &mut scalar_out);

    let backend = Pooled::with_mode_and_threads(CpuKernelMode::Avx2, 4)
        .expect("threaded AVX2 backend must build");
    let mut got = vec![0.0_f32; seq * state];
    backend
        .attention_encoder_d(&F32, &q, &k, &v, seq, n_head, head_dim, scale, &mut got)
        .expect("threaded AVX2 attention_encoder_d must succeed");

    for (idx, (g, s)) in got.iter().zip(scalar_out.iter()).enumerate() {
        let abs = (g - s).abs();
        let rel = if s.abs() > 1e-6 { abs / s.abs() } else { abs };
        assert!(
            abs <= 1e-4 || rel <= 1e-4,
            "threaded AVX2 encoder attention drifted at idx {idx}: scalar={s} avx2={g} abs={abs} rel={rel}"
        );
    }
}

#[test]
fn cpu_attention_decoder_causal_d_matches_scalar_bit_for_bit() {
    let seq = 5usize;
    let n_head = 2usize;
    let head_dim = 4usize;
    let state = n_head * head_dim;
    let scale = 1.0_f32 / (head_dim as f32).sqrt();

    let q: Vec<f32> = (0..seq * state)
        .map(|i| ((i as f32) * 0.017).sin())
        .collect();
    let k: Vec<f32> = (0..seq * state)
        .map(|i| ((i as f32) * 0.023).cos())
        .collect();
    let v: Vec<f32> = (0..seq * state)
        .map(|i| ((i as f32) * 0.031).sin())
        .collect();

    let mut expected = vec![0.0_f32; seq * state];
    attention_decoder_causal_scalar(&F32, &q, &k, &v, seq, n_head, head_dim, scale, &mut expected);

    let mut got = vec![0.0_f32; seq * state];
    attention_decoder_causal_d(&F32, &q, &k, &v, seq, n_head, head_dim, scale, &mut got)
        .expect("CPU attention_decoder_causal_d must succeed");
    assert_eq!(
        got, expected,
        "CPU causal decoder attention must be bit-identical to scalar"
    );
}

#[test]
fn cpu_attention_decoder_incremental_d_matches_scalar_bit_for_bit() {
    let past_seq = 3usize;
    let n_head = 2usize;
    let head_dim = 4usize;
    let state = n_head * head_dim;
    let scale = 1.0_f32 / (head_dim as f32).sqrt();

    let q: Vec<f32> = (0..state).map(|i| ((i as f32) * 0.041).sin()).collect();
    let past_k: Vec<f32> = (0..past_seq * state)
        .map(|i| ((i as f32) * 0.013).cos())
        .collect();
    let past_v: Vec<f32> = (0..past_seq * state)
        .map(|i| ((i as f32) * 0.019).sin())
        .collect();
    let new_k: Vec<f32> = (0..state).map(|i| ((i as f32) * 0.027).cos()).collect();
    let new_v: Vec<f32> = (0..state).map(|i| ((i as f32) * 0.033).sin()).collect();

    let mut expected = vec![0.0_f32; state];
    attention_decoder_incremental_scalar(
        &F32,
        &q,
        &past_k,
        &past_v,
        &new_k,
        &new_v,
        past_seq,
        n_head,
        head_dim,
        scale,
        &mut expected,
    );

    let mut got = vec![0.0_f32; state];
    attention_decoder_incremental_d(
            &F32,
            &q, &past_k, &past_v, &new_k, &new_v, past_seq, n_head, head_dim, scale,
            &mut got,
        )
        .expect("CPU attention_decoder_incremental_d must succeed");
    assert_eq!(
        got, expected,
        "CPU incremental decoder attention must be bit-identical to scalar"
    );
}

#[test]
fn cpu_copy_into_d_updates_destination_window() {
    let src = [9.0_f32, 8.0];
    let mut dst = [0.0_f32, 1.0, 2.0, 3.0, 4.0];

    copy_into_d(&src, &mut dst, 2).expect("copy into existing tensor");

    assert_eq!(dst, [0.0, 1.0, 9.0, 8.0, 4.0]);
}

#[test]
fn cpu_copy_into_d_rejects_out_of_range_window() {
    let src = [1.0_f32, 2.0, 3.0];
    let mut dst = [0.0_f32, 0.0];

    let err = copy_into_d(&src, &mut dst, 1)
        .expect_err("copy must reject a window past destination end");

    match err {
        OcelotlError::Kernel(KernelError { message, .. }) => {
            assert!(
                message.contains("copy_into_d"),
                "expected copy diagnostic, got {message}"
            );
        }
        other => panic!("expected KernelError, got {other:?}"),
    }
}

#[test]
fn cpu_attention_decoder_incremental_cache_d_matches_incremental_scalar() {
    let past_seq = 3usize;
    let visible_seq = past_seq + 1;
    let cache_capacity = 6usize;
    let n_head = 2usize;
    let head_dim = 4usize;
    let state = n_head * head_dim;
    let scale = 1.0_f32 / (head_dim as f32).sqrt();

    let q: Vec<f32> = (0..state).map(|i| ((i as f32) * 0.041).sin()).collect();
    let past_k: Vec<f32> = (0..past_seq * state)
        .map(|i| ((i as f32) * 0.013).cos())
        .collect();
    let past_v: Vec<f32> = (0..past_seq * state)
        .map(|i| ((i as f32) * 0.019).sin())
        .collect();
    let new_k: Vec<f32> = (0..state).map(|i| ((i as f32) * 0.027).cos()).collect();
    let new_v: Vec<f32> = (0..state).map(|i| ((i as f32) * 0.033).sin()).collect();

    let mut expected = vec![0.0_f32; state];
    attention_decoder_incremental_scalar(
        &F32,
        &q,
        &past_k,
        &past_v,
        &new_k,
        &new_v,
        past_seq,
        n_head,
        head_dim,
        scale,
        &mut expected,
    );

    let mut key_cache = vec![-99.0_f32; cache_capacity * state];
    let mut value_cache = vec![99.0_f32; cache_capacity * state];
    key_cache[..past_seq * state].copy_from_slice(&past_k);
    value_cache[..past_seq * state].copy_from_slice(&past_v);
    key_cache[past_seq * state..visible_seq * state].copy_from_slice(&new_k);
    value_cache[past_seq * state..visible_seq * state].copy_from_slice(&new_v);

    let backend = CpuKernelBackend::scalar();
    let mut got = vec![0.0_f32; state];
    backend
        .attention_decoder_incremental_cache_d(
            &F32,
            &q,
            &key_cache,
            &value_cache,
            visible_seq,
            cache_capacity,
            n_head,
            head_dim,
            scale,
            &mut got,
        )
        .expect("CPU cache attention must succeed");
    assert_eq!(
        got, expected,
        "cache-prefix attention must match past-plus-new incremental scalar"
    );
}

#[test]
fn cpu_attention_decoder_incremental_cache_append_d_matches_incremental_scalar_and_updates_cache() {
    let past_seq = 3usize;
    let visible_seq = past_seq + 1;
    let cache_capacity = 6usize;
    let n_head = 2usize;
    let head_dim = 4usize;
    let state = n_head * head_dim;
    let scale = 1.0_f32 / (head_dim as f32).sqrt();

    let q: Vec<f32> = (0..state).map(|i| ((i as f32) * 0.041).sin()).collect();
    let past_k: Vec<f32> = (0..past_seq * state)
        .map(|i| ((i as f32) * 0.013).cos())
        .collect();
    let past_v: Vec<f32> = (0..past_seq * state)
        .map(|i| ((i as f32) * 0.019).sin())
        .collect();
    let new_k: Vec<f32> = (0..state).map(|i| ((i as f32) * 0.027).cos()).collect();
    let new_v: Vec<f32> = (0..state).map(|i| ((i as f32) * 0.033).sin()).collect();

    let mut expected = vec![0.0_f32; state];
    attention_decoder_incremental_scalar(
        &F32,
        &q,
        &past_k,
        &past_v,
        &new_k,
        &new_v,
        past_seq,
        n_head,
        head_dim,
        scale,
        &mut expected,
    );

    let mut key_cache = vec![-99.0_f32; cache_capacity * state];
    let mut value_cache = vec![99.0_f32; cache_capacity * state];
    key_cache[..past_seq * state].copy_from_slice(&past_k);
    value_cache[..past_seq * state].copy_from_slice(&past_v);

    let backend = CpuKernelBackend::scalar();
    let mut got = vec![0.0_f32; state];
    backend
        .attention_decoder_incremental_cache_append_d(
            &F32,
            &q,
            &mut key_cache,
            &mut value_cache,
            &new_k,
            &new_v,
            past_seq,
            cache_capacity,
            n_head,
            head_dim,
            scale,
            &mut got,
        )
        .expect("CPU cache append attention must succeed");

    assert_eq!(got, expected);
    assert_eq!(
        &key_cache[past_seq * state..visible_seq * state],
        &new_k[..]
    );
    assert_eq!(
        &value_cache[past_seq * state..visible_seq * state],
        &new_v[..]
    );
}

#[test]
fn cpu_attention_decoder_incremental_cache_d_threaded_matches_scalar_bit_for_bit() {
    let visible_seq = PARALLEL_SDPA_MIN_SEQ;
    let cache_capacity = visible_seq + 3;
    let n_head = 2usize;
    let head_dim = 4usize;
    let state = n_head * head_dim;
    let scale = 1.0_f32 / (head_dim as f32).sqrt();

    let q: Vec<f32> = (0..state).map(|i| ((i as f32) * 0.041).sin()).collect();
    let mut key_cache = vec![-99.0_f32; cache_capacity * state];
    let mut value_cache = vec![99.0_f32; cache_capacity * state];
    for i in 0..visible_seq * state {
        key_cache[i] = ((i as f32) * 0.013).cos();
        value_cache[i] = ((i as f32) * 0.019).sin();
    }

    let mut expected = vec![0.0_f32; state];
    attention_decoder_incremental_cache_scalar(
        &F32,
        &q,
        &key_cache[..visible_seq * state],
        &value_cache[..visible_seq * state],
        visible_seq,
        n_head,
        head_dim,
        scale,
        &mut expected,
    );

    let backend = Pooled::with_mode_and_threads(CpuKernelMode::Scalar, 4)
        .expect("threaded scalar backend must build");
    let mut got = vec![0.0_f32; state];
    backend
        .attention_decoder_incremental_cache_d(
            &F32,
            &q,
            &key_cache,
            &value_cache,
            visible_seq,
            cache_capacity,
            n_head,
            head_dim,
            scale,
            &mut got,
        )
        .expect("threaded cache attention must succeed");
    assert_eq!(
        got, expected,
        "threaded cache attention must match scalar bit-for-bit"
    );
}

#[test]
fn cpu_attention_decoder_incremental_cache_d_threaded_avx2_matches_scalar_within_tolerance() {
    let visible_seq = PARALLEL_SDPA_MIN_SEQ;
    let cache_capacity = visible_seq + 3;
    let n_head = 2usize;
    let head_dim = 8usize;
    let state = n_head * head_dim;
    let scale = 1.0_f32 / (head_dim as f32).sqrt();

    let q: Vec<f32> = (0..state).map(|i| ((i as f32) * 0.041).sin()).collect();
    let mut key_cache = vec![-99.0_f32; cache_capacity * state];
    let mut value_cache = vec![99.0_f32; cache_capacity * state];
    for i in 0..visible_seq * state {
        key_cache[i] = ((i as f32) * 0.013).cos();
        value_cache[i] = ((i as f32) * 0.019).sin();
    }

    let mut expected = vec![0.0_f32; state];
    attention_decoder_incremental_cache_scalar(
        &F32,
        &q,
        &key_cache[..visible_seq * state],
        &value_cache[..visible_seq * state],
        visible_seq,
        n_head,
        head_dim,
        scale,
        &mut expected,
    );

    let backend = Pooled::with_mode_and_threads(CpuKernelMode::Avx2, 4)
        .expect("threaded AVX2 backend must build");
    let mut got = vec![0.0_f32; state];
    backend
        .attention_decoder_incremental_cache_d(
            &F32,
            &q,
            &key_cache,
            &value_cache,
            visible_seq,
            cache_capacity,
            n_head,
            head_dim,
            scale,
            &mut got,
        )
        .expect("threaded AVX2 cache attention must succeed");
    assert_close_with_tolerance(&got, &expected, 1.0e-4, "threaded AVX2 cache attention");
}

#[test]
fn validate_attention_decoder_causal_shapes_rejects_wrong_length() {
    let q = [0.0_f32; 8];
    let k = [0.0_f32; 8];
    let v = [0.0_f32; 8];
    let mut out = vec![0.0_f32; 8];
    let err = attention_decoder_causal_d(&F32, &q, &k, &v, 3, 2, 2, 0.5, &mut out)
        .expect_err("length mismatch must be rejected");
    match err {
        OcelotlError::Kernel(KernelError { message, .. }) => {
            assert!(
                message.contains("attention_decoder_causal_d"),
                "expected diagnostic, got {message}"
            );
        }
        other => panic!("expected KernelError, got {other:?}"),
    }
}

#[test]
fn validate_attention_decoder_incremental_shapes_rejects_wrong_past_length() {
    let n_head = 2usize;
    let head_dim = 4usize;
    let state = n_head * head_dim;
    let past_seq = 3usize;
    let q = vec![0.0_f32; state];
    let past_k = vec![0.0_f32; 2 * state];
    let past_v = vec![0.0_f32; past_seq * state];
    let new_k = vec![0.0_f32; state];
    let new_v = vec![0.0_f32; state];
    let mut out = vec![0.0_f32; state];
    let err = attention_decoder_incremental_d(
            &F32,
            &q, &past_k, &past_v, &new_k, &new_v, past_seq, n_head, head_dim, 0.5, &mut out,
        )
        .expect_err("length mismatch must be rejected");
    match err {
        OcelotlError::Kernel(KernelError { message, .. }) => {
            assert!(
                message.contains("attention_decoder_incremental_d"),
                "expected diagnostic, got {message}"
            );
        }
        other => panic!("expected KernelError, got {other:?}"),
    }
}

#[test]
fn attention_encoder_scalar_matches_hand_computed_softmax_chain() {
    let q = vec![1.0_f32, 0.0, 0.0, 1.0];
    let k = vec![1.0_f32, 0.0, 0.0, 1.0];
    let v = vec![1.0_f32, 2.0, 3.0, 4.0];
    let scale = 1.0_f32 / (2.0_f32).sqrt();

    let mut out = vec![0.0_f32; 4];
    attention_encoder_scalar(&F32, &q, &k, &v, 2, 1, 2, scale, &mut out);

    let s0 = 1.0_f32 / std::f32::consts::SQRT_2;
    let e0 = (s0 - s0).exp();
    let e1 = (0.0 - s0).exp();
    let denom = e0 + e1;
    let p0 = e0 / denom;
    let p1 = e1 / denom;
    let expected_row0 = [p0 * 1.0 + p1 * 3.0, p0 * 2.0 + p1 * 4.0];
    let e0r1 = (0.0 - s0).exp();
    let e1r1 = (s0 - s0).exp();
    let denom1 = e0r1 + e1r1;
    let p0r1 = e0r1 / denom1;
    let p1r1 = e1r1 / denom1;
    let expected_row1 = [p0r1 * 1.0 + p1r1 * 3.0, p0r1 * 2.0 + p1r1 * 4.0];

    for (got, want) in out[..2].iter().zip(expected_row0.iter()) {
        assert!(
            (got - want).abs() < 1e-6,
            "row 0 mismatch: got {got}, want {want}"
        );
    }
    for (got, want) in out[2..].iter().zip(expected_row1.iter()) {
        assert!(
            (got - want).abs() < 1e-6,
            "row 1 mismatch: got {got}, want {want}"
        );
    }
}

#[test]
fn validate_attention_encoder_shapes_rejects_wrong_length() {
    let backend = CpuKernelBackend::scalar();
    let q = [0.0_f32; 8];
    let k = [0.0_f32; 8];
    let v = [0.0_f32; 8];
    let mut out = vec![0.0_f32; 8];
    let err = backend
        .attention_encoder_d(&F32, &q, &k, &v, 4, 2, 2, 0.5, &mut out)
        .expect_err("length mismatch must be rejected");
    match err {
        OcelotlError::Kernel(KernelError { message, .. }) => {
            assert!(
                message.contains("attention_encoder_d"),
                "expected diagnostic, got {message}"
            );
        }
        other => panic!("expected KernelError, got {other:?}"),
    }
}

#[test]
fn attention_decoder_cross_scalar_matches_attention_body_host() {
    let q_seq = 3usize;
    let kv_seq = 5usize;
    let n_head = 2usize;
    let head_dim = 4usize;
    let state = n_head * head_dim;
    let scale = 1.0_f32 / (head_dim as f32).sqrt();

    let q: Vec<f32> = (0..q_seq * state)
        .map(|i| ((i as f32) * 0.017).sin())
        .collect();
    let k: Vec<f32> = (0..kv_seq * state)
        .map(|i| ((i as f32) * 0.013).cos())
        .collect();
    let v: Vec<f32> = (0..kv_seq * state)
        .map(|i| ((i as f32) * 0.023).sin())
        .collect();

    let mut got = vec![0.0_f32; q_seq * state];
    attention_decoder_cross_scalar(&F32, &q, &k, &v, q_seq, kv_seq, n_head, head_dim, scale, &mut got);

    let mut expected = vec![0.0_f32; q_seq * state];
    for qi in 0..q_seq {
        for head in 0..n_head {
            let q_base = qi * state + head * head_dim;
            let mut scores = vec![0.0_f32; kv_seq];
            for (ki, score) in scores.iter_mut().enumerate() {
                let k_base = ki * state + head * head_dim;
                let mut acc = 0.0_f32;
                for d in 0..head_dim {
                    acc += q[q_base + d] * k[k_base + d];
                }
                *score = acc * scale;
            }
            softmax(&F32, &mut scores);
            let out_base = qi * state + head * head_dim;
            for d in 0..head_dim {
                expected[out_base + d] = 0.0;
            }
            for (ki, &p) in scores.iter().enumerate() {
                let v_base = ki * state + head * head_dim;
                for d in 0..head_dim {
                    expected[out_base + d] += p * v[v_base + d];
                }
            }
        }
    }

    assert_eq!(got.len(), expected.len());
    for (idx, (g, e)) in got.iter().zip(expected.iter()).enumerate() {
        assert!(
            (g - e).abs() < 1e-6,
            "cross scalar mismatch at idx {idx}: got={g} expected={e}"
        );
    }
}

#[test]
fn attention_decoder_cross_d_cpu_matches_scalar_oracle() {
    let q_seq = 3usize;
    let kv_seq = 5usize;
    let n_head = 2usize;
    let head_dim = 4usize;
    let state = n_head * head_dim;
    let scale = 1.0_f32 / (head_dim as f32).sqrt();

    let q: Vec<f32> = (0..q_seq * state)
        .map(|i| ((i as f32) * 0.017).sin())
        .collect();
    let k: Vec<f32> = (0..kv_seq * state)
        .map(|i| ((i as f32) * 0.013).cos())
        .collect();
    let v: Vec<f32> = (0..kv_seq * state)
        .map(|i| ((i as f32) * 0.023).sin())
        .collect();

    let mut expected = vec![0.0_f32; q_seq * state];
    attention_decoder_cross_scalar(
        &F32,
        &q,
        &k,
        &v,
        q_seq,
        kv_seq,
        n_head,
        head_dim,
        scale,
        &mut expected,
    );

    let backend = CpuKernelBackend::scalar();
    let mut got = vec![0.0_f32; q_seq * state];
    backend
        .attention_decoder_cross_d(
            &F32,
            &q, &k, &v, q_seq, kv_seq, n_head, head_dim, scale, &mut got,
        )
        .expect("attention_decoder_cross_d must succeed");

    assert_eq!(got.len(), expected.len());
    for (idx, (g, e)) in got.iter().zip(expected.iter()).enumerate() {
        assert!(
            (g - e).abs() < 1e-6,
            "cross_d default mismatch at idx {idx}: got={g} expected={e}"
        );
    }
}

#[test]
fn cpu_attention_decoder_cross_d_threaded_matches_scalar_bit_for_bit() {
    let q_seq = 3usize;
    let kv_seq = PARALLEL_SDPA_MIN_SEQ;
    let n_head = 2usize;
    let head_dim = 4usize;
    let state = n_head * head_dim;
    let scale = 1.0_f32 / (head_dim as f32).sqrt();

    let q: Vec<f32> = (0..q_seq * state)
        .map(|i| ((i as f32) * 0.017).sin())
        .collect();
    let k: Vec<f32> = (0..kv_seq * state)
        .map(|i| ((i as f32) * 0.013).cos())
        .collect();
    let v: Vec<f32> = (0..kv_seq * state)
        .map(|i| ((i as f32) * 0.023).sin())
        .collect();

    let mut expected = vec![0.0_f32; q_seq * state];
    attention_decoder_cross_scalar(
        &F32,
        &q,
        &k,
        &v,
        q_seq,
        kv_seq,
        n_head,
        head_dim,
        scale,
        &mut expected,
    );

    let backend = Pooled::with_mode_and_threads(CpuKernelMode::Scalar, 4)
        .expect("threaded scalar backend must build");
    let mut got = vec![0.0_f32; q_seq * state];
    backend
        .attention_decoder_cross_d(
            &F32,
            &q, &k, &v, q_seq, kv_seq, n_head, head_dim, scale, &mut got,
        )
        .expect("threaded cross attention must succeed");
    assert_eq!(
        got, expected,
        "threaded cross attention must match scalar bit-for-bit"
    );
}

#[test]
fn cpu_attention_decoder_cross_d_threaded_avx2_matches_scalar_within_tolerance() {
    let q_seq = 3usize;
    let kv_seq = PARALLEL_SDPA_MIN_SEQ;
    let n_head = 2usize;
    let head_dim = 8usize;
    let state = n_head * head_dim;
    let scale = 1.0_f32 / (head_dim as f32).sqrt();

    let q: Vec<f32> = (0..q_seq * state)
        .map(|i| ((i as f32) * 0.017).sin())
        .collect();
    let k: Vec<f32> = (0..kv_seq * state)
        .map(|i| ((i as f32) * 0.013).cos())
        .collect();
    let v: Vec<f32> = (0..kv_seq * state)
        .map(|i| ((i as f32) * 0.023).sin())
        .collect();

    let mut expected = vec![0.0_f32; q_seq * state];
    attention_decoder_cross_scalar(
        &F32,
        &q,
        &k,
        &v,
        q_seq,
        kv_seq,
        n_head,
        head_dim,
        scale,
        &mut expected,
    );

    let backend = Pooled::with_mode_and_threads(CpuKernelMode::Avx2, 4)
        .expect("threaded AVX2 backend must build");
    let mut got = vec![0.0_f32; q_seq * state];
    backend
        .attention_decoder_cross_d(
            &F32,
            &q, &k, &v, q_seq, kv_seq, n_head, head_dim, scale, &mut got,
        )
        .expect("threaded AVX2 cross attention must succeed");
    assert_close_with_tolerance(&got, &expected, 1.0e-4, "threaded AVX2 cross attention");
}
