use vstd::prelude::*;

use crate::error::{kernel_err, OcelotlError, UnsupportedError};
use crate::types::Device;

verus! {

/// Which loops the CPU kernels run.
#[derive(Debug, Clone, Copy, PartialEq, Eq, Structural)]
pub enum CpuKernelMode {
    /// Correctness-first loops; the reference for all others.
    Scalar,
    /// Loops with a cache-friendlier order.
    Optimized,
    /// Vector instructions for linear projections; the other kernels run the
    /// optimized loops. Needs AVX2 and FMA.
    Avx2,
}

impl Default for CpuKernelMode {
    fn default() -> (r: Self)
        ensures
            r == CpuKernelMode::Scalar,
    {
        CpuKernelMode::Scalar
    }
}

impl CpuKernelMode {
    /// The name of a mode.
    pub open spec fn name(self) -> Seq<char> {
        match self {
            CpuKernelMode::Scalar => "scalar"@,
            CpuKernelMode::Optimized => "optimized"@,
            CpuKernelMode::Avx2 => "avx2"@,
        }
    }

    /// The name of a mode.
    pub fn as_str(self) -> (r: &'static str)
        ensures
            r@ == self.name(),
    {
        match self {
            CpuKernelMode::Scalar => "scalar",
            CpuKernelMode::Optimized => "optimized",
            CpuKernelMode::Avx2 => "avx2",
        }
    }
}

/// What the host's processor can do.
#[derive(Debug, Clone, Copy, PartialEq, Eq, Structural)]
pub struct CpuFeatures {
    pub x86_64: bool,
    pub avx2: bool,
    pub fma: bool,
}

/// When a mode is refused on a host, and how.
pub open spec fn mode_refusal(mode: CpuKernelMode, cpu: CpuFeatures) -> crate::shapes::Refusal {
    match mode {
        CpuKernelMode::Scalar | CpuKernelMode::Optimized => None,
        CpuKernelMode::Avx2 => if !cpu.x86_64 {
            Some(
                crate::error::cpu_error(
                    "CpuKernelMode::Avx2 is x86_64-only; rebuild with a Scalar or Optimized mode on this target"@,
                ),
            )
        } else if cpu.avx2 && cpu.fma {
            None
        } else {
            Some(
                crate::error::cpu_error(
                    "CpuKernelMode::Avx2 requires runtime avx2 + fma support; this host advertises neither or only one"@,
                ),
            )
        },
    }
}

/// Checks that the host can run a mode.
pub fn validate_mode_supported(mode: CpuKernelMode, cpu: CpuFeatures) -> (r: Result<
    (),
    OcelotlError,
>)
    ensures
        crate::shapes::refused(r) == mode_refusal(mode, cpu),
{
    match mode {
        CpuKernelMode::Scalar | CpuKernelMode::Optimized => Ok(()),
        CpuKernelMode::Avx2 => if !cpu.x86_64 {
            Err(
                kernel_err(
                    String::from_str(
                        "CpuKernelMode::Avx2 is x86_64-only; rebuild with a Scalar or Optimized mode on this target",
                    ),
                ),
            )
        } else if cpu.avx2 && cpu.fma {
            Ok(())
        } else {
            Err(
                kernel_err(
                    String::from_str(
                        "CpuKernelMode::Avx2 requires runtime avx2 + fma support; this host advertises neither or only one",
                    ),
                ),
            )
        },
    }
}

pub const PARALLEL_LINEAR_MIN_ROWS: usize = 32;

pub const PARALLEL_LINEAR_MIN_OUTPUTS: usize = 1024;

pub const PARALLEL_MATMUL_MIN_ROWS: usize = 32;

pub const PARALLEL_SDPA_MIN_SEQ: usize = 32;

/// How a linear projection is run.
#[derive(Debug, Clone, Copy, PartialEq, Eq, Structural)]
pub enum LinearPlan {
    /// On the calling thread.
    Serial,
    /// The outputs of one row, spread over the threads.
    ByOutput,
    /// The rows, spread over the threads.
    ByRow,
}

/// A single row with many outputs is spread by output, many rows are spread by
/// row, and everything else, or without a pool, is run serially.
pub open spec fn linear_plan_of(pool: bool, rows: nat, out_features: nat) -> LinearPlan {
    if pool && rows == 1 && out_features >= PARALLEL_LINEAR_MIN_OUTPUTS {
        LinearPlan::ByOutput
    } else if pool && rows >= PARALLEL_LINEAR_MIN_ROWS {
        LinearPlan::ByRow
    } else {
        LinearPlan::Serial
    }
}

/// How a linear projection is run.
pub fn linear_plan(pool: bool, rows: usize, out_features: usize) -> (r: LinearPlan)
    ensures
        r == linear_plan_of(pool, rows as nat, out_features as nat),
{
    if pool && rows == 1 && out_features >= PARALLEL_LINEAR_MIN_OUTPUTS {
        LinearPlan::ByOutput
    } else if pool && rows >= PARALLEL_LINEAR_MIN_ROWS {
        LinearPlan::ByRow
    } else {
        LinearPlan::Serial
    }
}

/// Whether a matrix product is spread over the threads.
pub fn matmul_in_parallel(pool: bool, rows: usize) -> (r: bool)
    ensures
        r == (pool && rows >= PARALLEL_MATMUL_MIN_ROWS),
{
    pool && rows >= PARALLEL_MATMUL_MIN_ROWS
}

/// Whether attention over a sequence is spread over the threads.
pub fn attention_in_parallel(pool: bool, seq: usize) -> (r: bool)
    ensures
        r == (pool && seq >= PARALLEL_SDPA_MIN_SEQ),
{
    pool && seq >= PARALLEL_SDPA_MIN_SEQ
}

/// Whether attention of one row over a cache is spread over the threads, one
/// head at a time.
pub fn cache_attention_in_parallel(pool: bool, visible_seq: usize, n_head: usize) -> (r: bool)
    ensures
        r == (pool && visible_seq >= PARALLEL_SDPA_MIN_SEQ && n_head > 1),
{
    pool && visible_seq >= PARALLEL_SDPA_MIN_SEQ && n_head > 1
}

/// Whether a backend with this many threads gets a pool.
pub fn needs_pool(threads: usize) -> (r: bool)
    ensures
        r == (threads > 1),
{
    threads > 1
}

/// The refusal of a backend that is not on a GPU.
pub open spec fn gpu_refusal(device: Device) -> crate::shapes::Refusal {
    match device {
        Device::Gpu { .. } => None,
        Device::Cpu => Some(
            crate::error::ErrorView::Unsupported {
                feature: "gpu_backend"@,
                requested: Some("gpu"@),
                supported: seq!["cpu"@],
            },
        ),
    }
}

/// Checks that a device is a GPU.
pub fn require_gpu(device: &Device) -> (r: Result<(), OcelotlError>)
    ensures
        crate::shapes::refused(r) == gpu_refusal(*device),
{
    match device {
        Device::Gpu { .. } => Ok(()),
        Device::Cpu => {
            let mut supported: Vec<String> = Vec::new();
            supported.push(String::from_str("cpu"));
            proof {
                assert(crate::text::words(supported@) =~= seq!["cpu"@]);
            }
            Err(
                OcelotlError::Unsupported(
                    UnsupportedError {
                        feature: String::from_str("gpu_backend"),
                        requested: Some(String::from_str("gpu")),
                        supported,
                    },
                ),
            )
        },
    }
}

} // verus!
