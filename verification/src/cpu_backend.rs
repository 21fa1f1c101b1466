use vstd::prelude::*;

use crate::arith::Arith;
use crate::attention::Heads;
use crate::attention_modes::attend_chunk;
use crate::decoder::append_row;
use crate::dense::{matmul, matmul_optimized};
use crate::error::OcelotlError;
use crate::modes::{
    attention_in_parallel, linear_plan, validate_mode_supported, CpuFeatures, CpuKernelMode,
    LinearPlan,
};
use crate::partition::project;
use crate::shapes::{
    validate_attention_decoder_cross_shapes, validate_attention_decoder_incremental_cache_shapes,
    validate_attention_encoder_shapes, validate_linear_out_by_in,
};
use crate::types::Device;
use vstd::slice::slice_subrange;

verus! {

/// What kernels run on.
#[derive(Debug, Clone)]
pub struct KernelContext {
    pub device: Device,
}

/// The CPU backend: a mode that the host can run, and a number of threads.
#[derive(Debug, Clone, Copy)]
pub struct CpuKernelBackend {
    mode: CpuKernelMode,
    threads: usize,
}

impl Default for CpuKernelBackend {
    fn default() -> (r: Self)
        ensures
            r.runs() == CpuKernelMode::Scalar,
            r.workers() == 1,
    {
        CpuKernelBackend::scalar()
    }
}

impl CpuKernelBackend {
    /// The mode.
    pub closed spec fn runs(self) -> CpuKernelMode {
        self.mode
    }

    /// The number of threads.
    pub closed spec fn workers(self) -> nat {
        self.threads as nat
    }

    /// A serial backend with the reference loops.
    pub fn scalar() -> (r: Self)
        ensures
            r.runs() == CpuKernelMode::Scalar,
            r.workers() == 1,
    {
        CpuKernelBackend { mode: CpuKernelMode::Scalar, threads: 1 }
    }

    /// A serial backend with the optimized loops.
    pub fn optimized() -> (r: Self)
        ensures
            r.runs() == CpuKernelMode::Optimized,
            r.workers() == 1,
    {
        CpuKernelBackend { mode: CpuKernelMode::Optimized, threads: 1 }
    }

    /// A serial backend with a mode that the host can run.
    pub fn with_mode(mode: CpuKernelMode, cpu: CpuFeatures) -> (r: Result<Self, OcelotlError>)
        ensures
            crate::shapes::refused(r) == crate::modes::mode_refusal(mode, cpu),
            r matches Ok(b) ==> b.runs() == mode && b.workers() == 1,
    {
        match validate_mode_supported(mode, cpu) {
            Ok(_) => Ok(CpuKernelBackend { mode, threads: 1 }),
            Err(e) => Err(e),
        }
    }

    /// The same as `with_mode`.
    pub fn with_mode_checked(mode: CpuKernelMode, cpu: CpuFeatures) -> (r: Result<
        Self,
        OcelotlError,
    >)
        ensures
            crate::shapes::refused(r) == crate::modes::mode_refusal(mode, cpu),
            r matches Ok(b) ==> b.runs() == mode && b.workers() == 1,
    {
        CpuKernelBackend::with_mode(mode, cpu)
    }

    /// A backend with a mode that the host can run, on a number of threads; none
    /// counts as one.
    pub fn with_mode_and_threads(mode: CpuKernelMode, cpu: CpuFeatures, threads: usize) -> (r:
        Result<Self, OcelotlError>)
        ensures
            crate::shapes::refused(r) == crate::modes::mode_refusal(mode, cpu),
            r matches Ok(b) ==> b.runs() == mode && b.workers() == crate::partition::at_least_one(
                threads as nat,
            ),
    {
        match validate_mode_supported(mode, cpu) {
            Ok(_) => Ok(
                CpuKernelBackend {
                    mode,
                    threads: if threads == 0 {
                        1
                    } else {
                        threads
                    },
                },
            ),
            Err(e) => Err(e),
        }
    }

    /// The mode.
    pub fn mode(&self) -> (r: CpuKernelMode)
        ensures
            r == self.runs(),
    {
        self.mode
    }

    /// The number of threads, one if the backend is serial.
    pub fn num_threads(&self) -> (r: usize)
        ensures
            r == self.workers(),
    {
        self.threads
    }

    /// Whether work is spread over a pool of threads.
    pub fn pooled(&self) -> (r: bool)
        ensures
            r == (self.workers() > 1),
    {
        self.threads > 1
    }

    /// The name of the backend.
    pub fn name(&self) -> (r: &'static str)
        ensures
            r@ == "cpu"@,
    {
        "cpu"
    }

    /// What the backend runs on.
    pub fn context(&self) -> (r: KernelContext)
        ensures
            r.device == Device::Cpu,
    {
        KernelContext { device: Device::Cpu }
    }

    /// How a projection is spread over the threads.
    pub fn linear_plan(&self, rows: usize, out_features: usize) -> (r: LinearPlan)
        ensures
            r == crate::modes::linear_plan_of(
                self.workers() > 1,
                rows as nat,
                out_features as nat,
            ),
    {
        linear_plan(self.threads > 1, rows, out_features)
    }

    /// Matrix product. The modes differ in the order of their loops, not in what
    /// they compute.
    pub fn matmul<T: Copy, A: Arith<T>>(
        &self,
        ar: &A,
        a: &[T],
        a_shape: (usize, usize),
        b: &[T],
        b_shape: (usize, usize),
        out: &mut [T],
    ) -> (r: Result<(), OcelotlError>)
        ensures
            final(out)@.len() == old(out)@.len(),
            crate::shapes::refused(r) == crate::shapes::matmul_refusal(
                a@.len(),
                a_shape,
                b@.len(),
                b_shape,
                old(out)@.len(),
            ),
            r is Err ==> final(out)@ == old(out)@,
            r is Ok ==> crate::dense::is_product(
                ar,
                a@,
                b@,
                a_shape.1 as int,
                b_shape.1 as int,
                final(out)@,
            ),
    {
        match self.mode {
            CpuKernelMode::Scalar => matmul(ar, a, a_shape, b, b_shape, out),
            CpuKernelMode::Optimized | CpuKernelMode::Avx2 => matmul_optimized(
                ar,
                a,
                a_shape,
                b,
                b_shape,
                out,
            ),
        }
    }

    /// Linear projection with weights by output.
    pub fn linear_out_by_in<T: Copy, A: Arith<T>>(
        &self,
        ar: &A,
        x: &[T],
        rows: usize,
        in_features: usize,
        weight_out_by_in: &[T],
        out_features: usize,
        bias: Option<&[T]>,
        out: &mut [T],
    ) -> (r: Result<(), OcelotlError>)
        ensures
            final(out)@.len() == old(out)@.len(),
            crate::shapes::refused(r) == crate::shapes::linear_refusal(
                x@.len(),
                rows,
                in_features,
                weight_out_by_in@.len(),
                out_features,
                crate::linear::bias_len(bias),
                old(out)@.len(),
            ),
            r is Err ==> final(out)@ == old(out)@,
            r is Ok ==> crate::partition::is_projection(
                ar,
                self.runs(),
                x@,
                weight_out_by_in@,
                crate::linear::bias_view(bias),
                in_features as int,
                rows as int,
                out_features as int,
                final(out)@,
            ),
    {
        match validate_linear_out_by_in(
            x.len(),
            rows,
            in_features,
            weight_out_by_in.len(),
            out_features,
            crate::linear::bias_len_of(bias),
            out.len(),
        ) {
            Ok(_) => {
                project(
                    ar,
                    self.mode,
                    x,
                    rows,
                    in_features,
                    weight_out_by_in,
                    out_features,
                    bias,
                    out,
                );
                Ok(())
            },
            Err(e) => Err(e),
        }
    }

    /// Causal attention with shared key heads; all modes compute the same.
    pub fn scaled_dot_product_attention<T: Copy, A: Arith<T>>(
        &self,
        ar: &A,
        q: &[T],
        k: &[T],
        v: &[T],
        seq_len: usize,
        num_q_heads: usize,
        num_kv_heads: usize,
        head_dim: usize,
        out: &mut [T],
    ) -> (r: Result<(), OcelotlError>)
        ensures
            final(out)@.len() == old(out)@.len(),
            crate::shapes::refused(r) == crate::attention::sdpa_refusal(
                q@.len(),
                k@.len(),
                v@.len(),
                seq_len,
                num_q_heads,
                num_kv_heads,
                head_dim,
                old(out)@.len(),
            ),
            r is Err ==> final(out)@ == old(out)@,
            r is Ok ==> exists|scale: T| #[trigger]
                crate::attention::is_scale(ar, head_dim, scale) && crate::attention::is_attention(
                    ar,
                    crate::attention::causal_heads(seq_len, num_q_heads, num_kv_heads, head_dim),
                    scale,
                    q@,
                    k@,
                    v@,
                    seq_len as int,
                    final(out)@,
                ),
    {
        crate::attention::scaled_dot_product_attention(
            ar,
            q,
            k,
            v,
            seq_len,
            num_q_heads,
            num_kv_heads,
            head_dim,
            out,
        )
    }

    /// Causal attention with shared key heads and a given scale.
    pub fn scaled_dot_product_attention_with_scale<T: Copy, A: Arith<T>>(
        &self,
        ar: &A,
        q: &[T],
        k: &[T],
        v: &[T],
        seq_len: usize,
        num_q_heads: usize,
        num_kv_heads: usize,
        head_dim: usize,
        scale: T,
        out: &mut [T],
    ) -> (r: Result<(), OcelotlError>)
        ensures
            final(out)@.len() == old(out)@.len(),
            crate::shapes::refused(r) == crate::attention::sdpa_refusal(
                q@.len(),
                k@.len(),
                v@.len(),
                seq_len,
                num_q_heads,
                num_kv_heads,
                head_dim,
                old(out)@.len(),
            ),
            r is Err ==> final(out)@ == old(out)@,
            r is Ok ==> crate::attention::is_attention(
                ar,
                crate::attention::causal_heads(seq_len, num_q_heads, num_kv_heads, head_dim),
                scale,
                q@,
                k@,
                v@,
                seq_len as int,
                final(out)@,
            ),
    {
        crate::attention::scaled_dot_product_attention_with_scale(
            ar,
            q,
            k,
            v,
            seq_len,
            num_q_heads,
            num_kv_heads,
            head_dim,
            scale,
            out,
        )
    }

    /// The mode of encoder attention: the reference loops, unless the rows are
    /// spread over threads.
    pub open spec fn encoder_runs(self, seq: nat) -> CpuKernelMode {
        if self.workers() > 1 && seq >= crate::modes::PARALLEL_SDPA_MIN_SEQ {
            self.runs()
        } else {
            CpuKernelMode::Scalar
        }
    }

    /// The mode of encoder attention.
    pub fn encoder_mode(&self, seq: usize) -> (r: CpuKernelMode)
        ensures
            r == self.encoder_runs(seq as nat),
    {
        if attention_in_parallel(self.threads > 1, seq) {
            self.mode
        } else {
            CpuKernelMode::Scalar
        }
    }

    /// Encoder self-attention: every row attends to all rows.
    pub fn attention_encoder_d<T: Copy, A: Arith<T>>(
        &self,
        ar: &A,
        q: &[T],
        k: &[T],
        v: &[T],
        seq: usize,
        n_head: usize,
        head_dim: usize,
        scale: T,
        out: &mut [T],
    ) -> (r: Result<(), OcelotlError>)
        ensures
            final(out)@.len() == old(out)@.len(),
            crate::shapes::refused(r) == crate::shapes::self_attention_refusal(
                "attention_encoder_d"@,
                q@.len(),
                k@.len(),
                v@.len(),
                seq as nat,
                n_head as nat,
                head_dim as nat,
                old(out)@.len(),
            ),
            r is Err ==> final(out)@ == old(out)@,
            r is Ok ==> crate::attention_modes::cells_in(
                ar,
                self.encoder_runs(seq as nat),
                crate::decoder::own_heads(n_head, head_dim, seq, false),
                scale,
                q@,
                k@,
                v@,
                0,
                seq * n_head,
                final(out)@,
            ),
    {
        match validate_attention_encoder_shapes(
            q.len(),
            k.len(),
            v.len(),
            seq,
            n_head,
            head_dim,
            out.len(),
        ) {
            Ok(_) => {},
            Err(e) => return Err(e),
        }
        attend_rows(
            ar,
            self.encoder_mode(seq),
            scale,
            q,
            k,
            v,
            seq,
            seq,
            n_head,
            head_dim,
            out,
        );
        Ok(())
    }

    /// Decoder attention over encoder rows: every row attends to all of them.
    pub fn attention_decoder_cross_d<T: Copy, A: Arith<T>>(
        &self,
        ar: &A,
        q: &[T],
        k: &[T],
        v: &[T],
        q_seq: usize,
        kv_seq: usize,
        n_head: usize,
        head_dim: usize,
        scale: T,
        out: &mut [T],
    ) -> (r: Result<(), OcelotlError>)
        ensures
            final(out)@.len() == old(out)@.len(),
            crate::shapes::refused(r) == crate::shapes::cross_refusal(
                q@.len(),
                k@.len(),
                v@.len(),
                q_seq as nat,
                kv_seq as nat,
                n_head as nat,
                head_dim as nat,
                old(out)@.len(),
            ),
            r is Err ==> final(out)@ == old(out)@,
            r is Ok ==> crate::attention_modes::cells_in(
                ar,
                self.runs(),
                crate::decoder::own_heads(n_head, head_dim, kv_seq, false),
                scale,
                q@,
                k@,
                v@,
                0,
                q_seq * n_head,
                final(out)@,
            ),
    {
        match validate_attention_decoder_cross_shapes(
            q.len(),
            k.len(),
            v.len(),
            q_seq,
            kv_seq,
            n_head,
            head_dim,
            out.len(),
        ) {
            Ok(_) => {},
            Err(e) => return Err(e),
        }
        attend_rows(ar, self.mode, scale, q, k, v, q_seq, kv_seq, n_head, head_dim, out);
        Ok(())
    }

    /// Attention of one row over the visible rows of a cache.
    pub fn attention_decoder_incremental_cache_d<T: Copy, A: Arith<T>>(
        &self,
        ar: &A,
        q: &[T],
        key_cache: &[T],
        value_cache: &[T],
        visible_seq: usize,
        cache_capacity: usize,
        n_head: usize,
        head_dim: usize,
        scale: T,
        out: &mut [T],
    ) -> (r: Result<(), OcelotlError>)
        ensures
            final(out)@.len() == old(out)@.len(),
            crate::shapes::refused(r) == crate::shapes::cache_refusal(
                q@.len(),
                key_cache@.len(),
                value_cache@.len(),
                visible_seq as nat,
                cache_capacity as nat,
                n_head as nat,
                head_dim as nat,
                old(out)@.len(),
            ),
            r is Err ==> final(out)@ == old(out)@,
            r is Ok ==> crate::attention_modes::cells_in(
                ar,
                self.runs(),
                crate::decoder::own_heads(n_head, head_dim, visible_seq, false),
                scale,
                q@,
                key_cache@.take(visible_seq * (n_head * head_dim)),
                value_cache@.take(visible_seq * (n_head * head_dim)),
                0,
                n_head as int,
                final(out)@,
            ),
    {
        match validate_attention_decoder_incremental_cache_shapes(
            q.len(),
            key_cache.len(),
            value_cache.len(),
            visible_seq,
            cache_capacity,
            n_head,
            head_dim,
            out.len(),
        ) {
            Ok(_) => {},
            Err(e) => return Err(e),
        }
        let state: usize = q.len();
        let key_total: usize = key_cache.len();
        proof {
            assert(visible_seq * state <= cache_capacity * state) by (nonlinear_arith)
                requires
                    visible_seq <= cache_capacity,
            ;
            assert(0 <= visible_seq * state) by (nonlinear_arith);
        }
        let visible_len: usize = visible_seq * state;
        let keys: &[T] = slice_subrange(key_cache, 0, visible_len);
        let values: &[T] = slice_subrange(value_cache, 0, visible_len);
        proof {
            assert(keys@ =~= key_cache@.take(visible_len as int));
            assert(values@ =~= value_cache@.take(visible_len as int));
            assert(1 * (n_head * head_dim) == n_head * head_dim) by (nonlinear_arith);
        }
        attend_rows(ar, self.mode, scale, q, keys, values, 1, visible_seq, n_head, head_dim, out);
        Ok(())
    }

    /// Writes a new row into a cache behind the past rows, and lets the new query
    /// attend to all rows that are then visible.
    pub fn attention_decoder_incremental_cache_append_d<T: Copy, A: Arith<T>>(
        &self,
        ar: &A,
        q: &[T],
        key_cache: &mut [T],
        value_cache: &mut [T],
        new_k: &[T],
        new_v: &[T],
        past_seq: usize,
        cache_capacity: usize,
        n_head: usize,
        head_dim: usize,
        scale: T,
        out: &mut [T],
    ) -> (r: Result<(), OcelotlError>)
        ensures
            final(out)@.len() == old(out)@.len(),
            crate::shapes::refused(r) == crate::shapes::append_refusal(
                q@.len(),
                old(key_cache)@.len(),
                old(value_cache)@.len(),
                new_k@.len(),
                new_v@.len(),
                past_seq as nat,
                cache_capacity as nat,
                n_head as nat,
                head_dim as nat,
                old(out)@.len(),
            ),
            r is Err ==> {
                &&& final(out)@ == old(out)@
                &&& final(key_cache)@ == old(key_cache)@
                &&& final(value_cache)@ == old(value_cache)@
            },
            r is Ok ==> {
                &&& final(key_cache)@ == crate::decoder::written(
                    old(key_cache)@,
                    new_k@,
                    past_seq * (n_head * head_dim),
                )
                &&& final(value_cache)@ == crate::decoder::written(
                    old(value_cache)@,
                    new_v@,
                    past_seq * (n_head * head_dim),
                )
                &&& crate::attention_modes::cells_in(
                    ar,
                    self.runs(),
                    crate::decoder::own_heads(n_head, head_dim, (past_seq + 1) as usize, false),
                    scale,
                    q@,
                    final(key_cache)@.take((past_seq + 1) * (n_head * head_dim)),
                    final(value_cache)@.take((past_seq + 1) * (n_head * head_dim)),
                    0,
                    n_head as int,
                    final(out)@,
                )
            },
    {
        match append_row(
            q.len(),
            key_cache,
            value_cache,
            new_k,
            new_v,
            past_seq,
            cache_capacity,
            n_head,
            head_dim,
            out.len(),
        ) {
            Ok(_) => {},
            Err(e) => return Err(e),
        }
        self.attention_decoder_incremental_cache_d(
            ar,
            q,
            key_cache,
            value_cache,
            past_seq + 1,
            cache_capacity,
            n_head,
            head_dim,
            scale,
            out,
        )
    }
}

/// Attention of every row over all rows of keys and values, as a mode computes
/// it.
fn attend_rows<T: Copy, A: Arith<T>>(
    ar: &A,
    mode: CpuKernelMode,
    scale: T,
    q: &[T],
    k: &[T],
    v: &[T],
    q_rows: usize,
    rows: usize,
    n_head: usize,
    head_dim: usize,
    out: &mut [T],
)
    requires
        n_head > 0,
        head_dim > 0,
        q@.len() == q_rows * (n_head * head_dim),
        k@.len() == rows * (n_head * head_dim),
        v@.len() == k@.len(),
        old(out)@.len() == q@.len(),
    ensures
        final(out)@.len() == old(out)@.len(),
        crate::attention_modes::cells_in(
            ar,
            mode,
            crate::decoder::own_heads(n_head, head_dim, rows, false),
            scale,
            q@,
            k@,
            v@,
            0,
            q_rows * n_head,
            final(out)@,
        ),
{
    let g = Heads { queries: n_head, keys: n_head, dim: head_dim, rows, causal: false };
    proof {
        assert(n_head % n_head == 0) by (nonlinear_arith)
            requires
                n_head > 0,
        ;
        let cells = q_rows * n_head;
        assert(q_rows * (n_head * head_dim) == cells * head_dim) by (nonlinear_arith)
            requires
                cells == q_rows * n_head,
        ;
        assert(0 <= cells) by (nonlinear_arith)
            requires
                cells == q_rows * n_head,
        ;
        vstd::arithmetic::div_mod::lemma_fundamental_div_mod_converse(
            out@.len() as int,
            head_dim as int,
            cells,
            0,
        );
    }
    attend_chunk(ar, mode, g, scale, q, k, v, 0, out);
}

} // verus!
