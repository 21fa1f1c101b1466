use vstd::prelude::*;

use crate::arith::{dot, Arith};
use crate::cpu_backend::KernelContext;
use crate::error::{KernelError, OcelotlError};
use crate::expr::Term;
use crate::rope::validate_rope_shape;
use crate::text::Text;
use crate::types::{DType, Device};

verus! {

/// The name of the GPU backend.
pub open spec fn gpu_name() -> Seq<char> {
    "cubecl"@
}

/// The name of the GPU backend's buffers.
pub open spec fn gpu_buffer_name() -> Seq<char> {
    "cubecl-wgpu"@
}

/// The GPU backend.
#[derive(Debug, Clone)]
pub struct CubeClKernelBackend {
    context: KernelContext,
}

impl CubeClKernelBackend {
    /// The number of the GPU, counted from zero.
    pub closed spec fn device(self) -> Device {
        self.context.device
    }

    /// The backend of a GPU.
    pub fn new_gpu(ordinal: usize) -> (r: Self)
        ensures
            r.device() == (Device::Gpu { ordinal }),
    {
        CubeClKernelBackend { context: KernelContext { device: Device::Gpu { ordinal } } }
    }

    /// The name of the backend.
    pub fn name(&self) -> (r: &'static str)
        ensures
            r@ == gpu_name(),
    {
        "cubecl"
    }

    /// What the backend runs on.
    pub fn context(&self) -> (r: &KernelContext)
        ensures
            r.device == self.device(),
    {
        &self.context
    }
}

/// The layout of rows that are to be rotated: `row_stride` values from row to
/// row, `head_dim` of which are used.
#[derive(Debug, Clone, PartialEq, Eq, Structural)]
pub struct CubeClRopeLayout {
    pub dtype: DType,
    pub head_dim: usize,
    pub row_stride: usize,
}

impl CubeClRopeLayout {
    /// Rows of single-precision values, one behind the other.
    pub fn contiguous_f32(head_dim: usize) -> (r: Self)
        ensures
            r == (CubeClRopeLayout { dtype: DType::F32, head_dim, row_stride: head_dim }),
    {
        CubeClRopeLayout { dtype: DType::F32, head_dim, row_stride: head_dim }
    }
}

/// The name of an element type.
pub open spec fn dtype_name(d: DType) -> Seq<char> {
    match d {
        DType::F32 => "F32"@,
        DType::F16 => "F16"@,
        DType::BF16 => "BF16"@,
        DType::Q4 => "Q4"@,
        DType::Q8 => "Q8"@,
    }
}

fn dtype_text(d: DType) -> (r: &'static str)
    ensures
        r@ == dtype_name(d),
{
    match d {
        DType::F32 => "F32",
        DType::F16 => "F16",
        DType::BF16 => "BF16",
        DType::Q4 => "Q4",
        DType::Q8 => "Q8",
    }
}

fn backend_err(backend: &str, message: String) -> (e: OcelotlError)
    ensures
        e@ == (crate::error::ErrorView::Kernel { backend: backend@, message: message@ }),
{
    OcelotlError::Kernel(KernelError { backend: String::from_str(backend), message })
}

/// When a rotation is refused before its launch, and how.
pub open spec fn rope_launch_refusal(len: nat, layout: CubeClRopeLayout) -> crate::shapes::Refusal {
    let head_dim = layout.head_dim as nat;
    crate::shapes::first(
        crate::shapes::first(
            crate::rope::rope_refuse_if(
                layout.dtype != DType::F32,
                gpu_name(),
                "CubeCL RoPE supports only F32 input, got "@ + dtype_name(layout.dtype),
            ),
            crate::rope::rope_refuse_if(
                layout.row_stride != layout.head_dim,
                gpu_name(),
                "CubeCL RoPE requires contiguous rows (row_stride == head_dim), got row_stride "@
                    + crate::text::dec(layout.row_stride as nat) + " for head_dim "@
                    + crate::text::dec(head_dim),
            ),
        ),
        crate::shapes::first(
            crate::rope::rope_refusal(gpu_name(), len, head_dim),
            crate::shapes::first(
                crate::rope::rope_refuse_if(
                    head_dim > u32::MAX,
                    gpu_name(),
                    "head_dim "@ + crate::text::dec(head_dim) + " exceeds CubeCL u32 launch limit"@,
                ),
                crate::rope::rope_refuse_if(
                    len / 2 > u32::MAX,
                    gpu_name(),
                    "rope pair count "@ + crate::text::dec(len / 2)
                        + " exceeds CubeCL u32 launch limit"@,
                ),
            ),
        ),
    )
}

/// Checks a rotation before its launch; gives back the number of pairs, one for
/// each invocation.
pub fn prepare_rope_launch(len: usize, layout: &CubeClRopeLayout) -> (r: Result<u32, OcelotlError>)
    ensures
        crate::shapes::refused(r) == rope_launch_refusal(len as nat, *layout),
        r matches Ok(pairs) ==> pairs == len / 2,
{
    if layout.dtype != DType::F32 {
        return Err(
            backend_err(
                "cubecl",
                Text::new("CubeCL RoPE supports only F32 input, got ").s(
                    dtype_text(layout.dtype),
                ).done(),
            ),
        );
    }
    if layout.row_stride != layout.head_dim {
        return Err(
            backend_err(
                "cubecl",
                Text::new(
                    "CubeCL RoPE requires contiguous rows (row_stride == head_dim), got row_stride ",
                ).n(layout.row_stride).s(" for head_dim ").n(layout.head_dim).done(),
            ),
        );
    }
    match validate_rope_shape("cubecl", len, layout.head_dim) {
        Ok(_) => {},
        Err(e) => return Err(e),
    }
    if layout.head_dim > u32::MAX as usize {
        return Err(
            backend_err(
                "cubecl",
                Text::new("head_dim ").n(layout.head_dim).s(
                    " exceeds CubeCL u32 launch limit",
                ).done(),
            ),
        );
    }
    let pairs: usize = len / 2;
    if pairs > u32::MAX as usize {
        return Err(
            backend_err(
                "cubecl",
                Text::new("rope pair count ").n(pairs).s(" exceeds CubeCL u32 launch limit").done(),
            ),
        );
    }
    Ok(pairs as u32)
}

/// Where the first value of a pair lies.
pub open spec fn pair_lo(head_dim: int, pair: int) -> int {
    pair / (head_dim / 2) * head_dim + pair % (head_dim / 2)
}

/// The outputs of an invocation: a pair, rotated by the angle of the tables.
pub open spec fn pair_rotated<T, A: Arith<T>>(
    ar: &A,
    input: Seq<T>,
    cos: Seq<T>,
    sin: Seq<T>,
    head_dim: int,
    pair: int,
    out: Seq<T>,
) -> bool {
    let half = head_dim / 2;
    let lo = pair_lo(head_dim, pair);
    let (x, y) = (crate::expr::Expr::Value(input[lo]), crate::expr::Expr::Value(input[lo + half]));
    let c = crate::expr::Expr::Value(cos[pair % half]);
    let s = crate::expr::Expr::Value(sin[pair % half]);
    &&& crate::expr::evals(ar, x.times(c).minus(y.times(s)), out[lo])
    &&& crate::expr::evals(ar, x.times(s).plus(y.times(c)), out[lo + half])
}

proof fn pair_bound(len: int, head_dim: int, pair: int)
    requires
        head_dim > 0,
        head_dim % 2 == 0,
        len % head_dim == 0,
        0 <= pair < len / 2,
    ensures
        0 <= pair_lo(head_dim, pair),
        pair_lo(head_dim, pair) + head_dim / 2 < len,
        0 <= pair % (head_dim / 2) < head_dim / 2,
        0 <= pair / (head_dim / 2),
        pair == pair / (head_dim / 2) * (head_dim / 2) + pair % (head_dim / 2),
        0 <= pair / (head_dim / 2) * head_dim,
        pair / (head_dim / 2) * head_dim + head_dim <= len,
{
    let half = head_dim / 2;
    crate::grid::index(pair, half);
    crate::grid::index(len, head_dim);
    let (h, heads) = (pair / half, len / head_dim);
    assert(len / 2 == heads * half) by (nonlinear_arith)
        requires
            len == heads * head_dim,
            head_dim == 2 * half,
    ;
    assert(h < heads) by (nonlinear_arith)
        requires
            h * half <= pair,
            pair < heads * half,
            half > 0,
    ;
    crate::grid::row_bound(h, heads, head_dim);
}

/// One invocation of the rotation: rotates one pair.
pub fn rope_pair<T: Copy, A: Arith<T>>(
    ar: &A,
    input: &[T],
    cos: &[T],
    sin: &[T],
    head_dim: usize,
    pair: usize,
    output: &mut [T],
)
    requires
        head_dim > 0,
        head_dim % 2 == 0,
        input@.len() % head_dim as nat == 0,
        old(output)@.len() == input@.len(),
        cos@.len() == head_dim / 2,
        sin@.len() == head_dim / 2,
        pair < input@.len() / 2,
    ensures
        final(output)@.len() == old(output)@.len(),
        pair_rotated(ar, input@, cos@, sin@, head_dim as int, pair as int, final(output)@),
        forall|i: int|
            0 <= i < final(output)@.len() && i != pair_lo(head_dim as int, pair as int) && i
                != pair_lo(head_dim as int, pair as int) + head_dim as int / 2
                ==> #[trigger] final(output)@[i] == old(output)@[i],
{
    let total: usize = input.len();
    let half: usize = head_dim / 2;
    proof {
        pair_bound(total as int, head_dim as int, pair as int);
    }
    let head: usize = pair / half;
    let i: usize = pair - head * half;
    let lo: usize = head * head_dim + i;
    let x = Term::of(ar, input[lo]);
    let y = Term::of(ar, input[lo + half]);
    let c = Term::of(ar, cos[i]);
    let s = Term::of(ar, sin[i]);
    let new_lo = x.times(ar, &c).minus(ar, &y.times(ar, &s));
    let new_hi = x.times(ar, &s).plus(ar, &y.times(ar, &c));
    output[lo] = new_lo.value;
    output[lo + half] = new_hi.value;
}

proof fn substitute<T, A: Arith<T>>(ar: &A, x: T, t: T, e: crate::expr::Expr<T>, p: T)
    requires
        crate::expr::evals(ar, e, t),
        crate::expr::evals(
            ar,
            crate::expr::Expr::Value(x).times(crate::expr::Expr::Value(t)),
            p,
        ),
    ensures
        crate::expr::evals(ar, crate::expr::Expr::Value(x).times(e), p),
{
    let (a, b) = choose|a: T, b: T|
        crate::expr::evals(ar, crate::expr::Expr::Value(x), a) && crate::expr::evals(
            ar,
            crate::expr::Expr::Value(t),
            b,
        ) && #[trigger] crate::expr::combines(ar, crate::expr::Op::Mul, a, b, p);
    assert(crate::expr::combines(ar, crate::expr::Op::Mul, x, t, p));
}

/// Rotating every pair, with the tables of a position, is rotating the row: each
/// value lies in exactly one pair.
pub proof fn pairs_make_the_rotation<T, A: Arith<T>>(
    ar: &A,
    input: Seq<T>,
    cos: Seq<T>,
    sin: Seq<T>,
    head_dim: usize,
    position: usize,
    theta: T,
    out: Seq<T>,
    x: int,
)
    requires
        head_dim > 0,
        head_dim % 2 == 0,
        input.len() % head_dim as nat == 0,
        out.len() == input.len(),
        cos.len() == head_dim / 2,
        sin.len() == head_dim / 2,
        forall|i: int|
            0 <= i < cos.len() ==> crate::rope::is_cosine(
                ar,
                theta,
                head_dim,
                position,
                i,
                #[trigger] cos[i],
            ),
        forall|i: int|
            0 <= i < sin.len() ==> crate::rope::is_sine(
                ar,
                theta,
                head_dim,
                position,
                i,
                #[trigger] sin[i],
            ),
        forall|pair: int|
            0 <= pair < input.len() as int / 2 ==> #[trigger] pair_rotated(
                ar,
                input,
                cos,
                sin,
                head_dim as int,
                pair,
                out,
            ),
        0 <= x < input.len(),
    ensures
        crate::rope::rope_cell(ar, input, head_dim, position, theta, x, out[x]),
{
    let dim = head_dim as int;
    let half = dim / 2;
    crate::grid::index(input.len() as int, dim);
    let heads = input.len() as int / dim;
    crate::grid::index_row(x, heads, dim);
    let (h, c) = (x / dim, x % dim);
    let i = if c < half {
        c
    } else {
        c - half
    };
    let pair = h * half + i;
    crate::grid::cell(h, i, half);
    crate::grid::row_bound(h, heads, half);
    assert(input.len() as int / 2 == heads * half) by (nonlinear_arith)
        requires
            input.len() == heads * dim,
            dim == 2 * half,
    ;
    assert(pair_rotated(ar, input, cos, sin, dim, pair, out));
    let lo = pair_lo(dim, pair);
    assert(lo == h * dim + i);
    let angle = crate::rope::rope_angle(theta, head_dim, position, i as usize);
    assert(crate::rope::is_cosine(ar, theta, head_dim, position, i, cos[i]));
    assert(crate::rope::is_sine(ar, theta, head_dim, position, i, sin[i]));
    let (u, w) = (input[lo], input[lo + half]);
    let (vu, vw) = (crate::expr::Expr::Value(u), crate::expr::Expr::Value(w));
    let (vc, vs) = (crate::expr::Expr::Value(cos[i]), crate::expr::Expr::Value(sin[i]));
    if c < half {
        let (a, b) = choose|a: T, b: T|
            crate::expr::evals(ar, vu.times(vc), a) && crate::expr::evals(ar, vw.times(vs), b)
                && #[trigger] crate::expr::combines(ar, crate::expr::Op::Sub, a, b, out[x]);
        substitute(ar, u, cos[i], angle.cosine(), a);
        substitute(ar, w, sin[i], angle.sine(), b);
        assert(crate::expr::combines(ar, crate::expr::Op::Sub, a, b, out[x]));
        assert(crate::expr::evals(ar, crate::rope::rotated_lo(u, w, angle), out[x]));
    } else {
        let (a, b) = choose|a: T, b: T|
            crate::expr::evals(ar, vu.times(vs), a) && crate::expr::evals(ar, vw.times(vc), b)
                && #[trigger] crate::expr::combines(ar, crate::expr::Op::Add, a, b, out[x]);
        substitute(ar, u, sin[i], angle.sine(), a);
        substitute(ar, w, cos[i], angle.cosine(), b);
        assert(crate::expr::combines(ar, crate::expr::Op::Add, a, b, out[x]));
        assert(crate::expr::evals(ar, crate::rope::rotated_hi(u, w, angle), out[x]));
    }
}

/// The invocations of one workgroup.
pub const WORKGROUP_SIZE: u32 = 256;

/// When a projection is refused before its launch, and how.
pub open spec fn linear_launch_refusal(rows: nat, in_features: nat, out_features: nat) -> crate::shapes::Refusal {
    crate::shapes::first(
        crate::rope::rope_refuse_if(
            in_features > u32::MAX,
            gpu_name(),
            "in_features "@ + crate::text::dec(in_features) + " exceeds CubeCL u32 launch limit"@,
        ),
        crate::shapes::first(
            crate::rope::rope_refuse_if(
                out_features > u32::MAX,
                gpu_name(),
                "out_features "@ + crate::text::dec(out_features)
                    + " exceeds CubeCL u32 launch limit"@,
            ),
            crate::rope::rope_refuse_if(
                rows * out_features > u32::MAX,
                gpu_name(),
                "linear_out_by_in cell count "@ + crate::text::dec(rows * out_features)
                    + " exceeds CubeCL u32 launch limit"@,
            ),
        ),
    )
}

/// The workgroups that a number of cells takes, at least one.
pub open spec fn workgroups(cells: nat) -> nat {
    crate::partition::at_least_one(crate::partition::ceil(cells, WORKGROUP_SIZE as nat))
}

/// The grid of a projection: the number of workgroups and their size.
pub fn prepare_linear_launch(rows: usize, in_features: usize, out_features: usize) -> (r: Result<
    (u32, u32),
    OcelotlError,
>)
    requires
        in_features <= u32::MAX && out_features <= u32::MAX ==> rows * out_features <= usize::MAX,
    ensures
        crate::shapes::refused(r) == linear_launch_refusal(
            rows as nat,
            in_features as nat,
            out_features as nat,
        ),
        r matches Ok((count, size)) ==> {
            &&& count == workgroups((rows * out_features) as nat)
            &&& size == WORKGROUP_SIZE
        },
{
    if in_features > u32::MAX as usize {
        return Err(
            backend_err(
                "cubecl",
                Text::new("in_features ").n(in_features).s(
                    " exceeds CubeCL u32 launch limit",
                ).done(),
            ),
        );
    }
    if out_features > u32::MAX as usize {
        return Err(
            backend_err(
                "cubecl",
                Text::new("out_features ").n(out_features).s(
                    " exceeds CubeCL u32 launch limit",
                ).done(),
            ),
        );
    }
    let cells: usize = rows * out_features;
    if cells > u32::MAX as usize {
        return Err(
            backend_err(
                "cubecl",
                Text::new("linear_out_by_in cell count ").n(cells).s(
                    " exceeds CubeCL u32 launch limit",
                ).done(),
            ),
        );
    }
    let total: u32 = cells as u32;
    let whole: u32 = total / WORKGROUP_SIZE;
    let count: u32 = if total % WORKGROUP_SIZE == 0 {
        whole
    } else {
        whole + 1
    };
    Ok(
        (
            if count == 0 {
                1
            } else {
                count
            },
            WORKGROUP_SIZE,
        ),
    )
}

/// The workgroups reach every cell, and none of them but the first is idle.
pub proof fn workgroups_cover_cells(cells: nat, cell: nat)
    ensures
        cell < cells ==> (cell / WORKGROUP_SIZE as nat) < workgroups(cells),
        cells > 0 ==> (workgroups(cells) - 1) * WORKGROUP_SIZE < cells,
{
    crate::partition::ceil_bound(cells, WORKGROUP_SIZE as nat);
}

/// One invocation of the projection: computes one output; an invocation past the
/// last output does nothing.
pub fn linear_position<T: Copy, A: Arith<T>>(
    ar: &A,
    x: &[T],
    weight: &[T],
    bias: Option<&[T]>,
    in_features: usize,
    out_features: usize,
    cell: usize,
    output: &mut [T],
)
    requires
        out_features > 0,
        old(output)@.len() % out_features as nat == 0,
        x@.len() == old(output)@.len() / out_features as nat * in_features,
        weight@.len() == out_features * in_features,
        bias matches Some(b) ==> b@.len() == out_features,
    ensures
        final(output)@.len() == old(output)@.len(),
        cell >= old(output)@.len() ==> final(output)@ == old(output)@,
        cell < old(output)@.len() ==> {
            &&& exists|zero: T| #[trigger]
                crate::arith::converts(ar, 0, zero) && crate::linear::linear_cell(
                    ar,
                    zero,
                    x@,
                    weight@,
                    crate::linear::bias_view(bias),
                    in_features as int,
                    cell as int / out_features as int,
                    cell as int % out_features as int,
                    final(output)@[cell as int],
                )
            &&& final(output)@ == old(output)@.update(cell as int, final(output)@[cell as int])
        },
{
    if cell >= output.len() {
        return;
    }
    let x_total: usize = x.len();
    let w_total: usize = weight.len();
    let rows: usize = output.len() / out_features;
    proof {
        crate::grid::index(output@.len() as int, out_features as int);
        crate::grid::index_row(cell as int, rows as int, out_features as int);
        crate::grid::row_bound(
            cell as int / out_features as int,
            rows as int,
            in_features as int,
        );
        crate::grid::row_bound(
            cell as int % out_features as int,
            out_features as int,
            in_features as int,
        );
    }
    let row: usize = cell / out_features;
    let out_dim: usize = cell - row * out_features;
    let zero: T = ar.from_int(0);
    assert(crate::arith::converts(ar, 0, zero));
    let init: T = match bias {
        Some(b) => b[out_dim],
        None => zero,
    };
    let acc: T = dot(ar, init, x, row * in_features, weight, out_dim * in_features, in_features);
    output[cell] = acc;
}

/// The refusal of a buffer of a projection on the GPU.
pub open spec fn gpu_len_refusal(label: Seq<char>, len: nat, what: Seq<char>, expected: nat) -> crate::shapes::Refusal {
    crate::rope::rope_refuse_if(
        len != expected,
        gpu_buffer_name(),
        "linear_d "@ + label + " len "@ + crate::text::dec(len) + " != "@ + what + " "@
            + crate::text::dec(expected),
    )
}

/// When a projection of buffers on the GPU is refused, and how.
pub open spec fn linear_d_refusal(
    x_len: nat,
    rows: nat,
    in_features: nat,
    weight_len: nat,
    out_features: nat,
    bias_len: Option<nat>,
    out_len: nat,
) -> crate::shapes::Refusal {
    let name = gpu_buffer_name();
    crate::shapes::first(
        crate::shapes::first(
            crate::rope::rope_refuse_if(
                rows * in_features > usize::MAX,
                name,
                "linear_d rows*in_features overflowed usize"@,
            ),
            crate::shapes::first(
                crate::rope::rope_refuse_if(
                    out_features * in_features > usize::MAX,
                    name,
                    "linear_d out_features*in_features overflowed usize"@,
                ),
                crate::rope::rope_refuse_if(
                    rows * out_features > usize::MAX,
                    name,
                    "linear_d rows*out_features overflowed usize"@,
                ),
            ),
        ),
        crate::shapes::first(
            crate::shapes::first(
                gpu_len_refusal("x"@, x_len, "rows*in_features"@, rows * in_features),
                gpu_len_refusal(
                    "weight"@,
                    weight_len,
                    "out_features*in_features"@,
                    out_features * in_features,
                ),
            ),
            crate::shapes::first(
                gpu_len_refusal("out"@, out_len, "rows*out_features"@, rows * out_features),
                match bias_len {
                    Some(n) => gpu_len_refusal("bias"@, n, "out_features"@, out_features),
                    None => None,
                },
            ),
        ),
    )
}

fn product_or(a: usize, b: usize, message: &str) -> (r: Result<usize, OcelotlError>)
    ensures
        crate::shapes::refused(r) == crate::rope::rope_refuse_if(
            a * b > usize::MAX,
            gpu_buffer_name(),
            message@,
        ),
        r matches Ok(p) ==> p == a * b,
{
    match a.checked_mul(b) {
        Some(p) => Ok(p),
        None => Err(backend_err("cubecl-wgpu", String::from_str(message))),
    }
}

fn check_buffer(label: &str, len: usize, what: &str, expected: usize) -> (r: Result<
    (),
    OcelotlError,
>)
    ensures
        crate::shapes::refused(r) == gpu_len_refusal(
            label@,
            len as nat,
            what@,
            expected as nat,
        ),
{
    if len != expected {
        Err(
            backend_err(
                "cubecl-wgpu",
                Text::new("linear_d ").s(label).s(" len ").n(len).s(" != ").s(what).s(" ").n(
                    expected,
                ).done(),
            ),
        )
    } else {
        Ok(())
    }
}

/// Checks the buffers of a projection on the GPU.
pub fn validate_linear_d(
    x_len: usize,
    rows: usize,
    in_features: usize,
    weight_len: usize,
    out_features: usize,
    bias_len: Option<usize>,
    out_len: usize,
) -> (r: Result<(), OcelotlError>)
    ensures
        crate::shapes::refused(r) == linear_d_refusal(
            x_len as nat,
            rows as nat,
            in_features as nat,
            weight_len as nat,
            out_features as nat,
            match bias_len {
                Some(n) => Some(n as nat),
                None => None,
            },
            out_len as nat,
        ),
{
    let x_expected: usize = match product_or(
        rows,
        in_features,
        "linear_d rows*in_features overflowed usize",
    ) {
        Ok(p) => p,
        Err(e) => return Err(e),
    };
    let w_expected: usize = match product_or(
        out_features,
        in_features,
        "linear_d out_features*in_features overflowed usize",
    ) {
        Ok(p) => p,
        Err(e) => return Err(e),
    };
    let out_expected: usize = match product_or(
        rows,
        out_features,
        "linear_d rows*out_features overflowed usize",
    ) {
        Ok(p) => p,
        Err(e) => return Err(e),
    };
    match check_buffer("x", x_len, "rows*in_features", x_expected) {
        Ok(_) => {},
        Err(e) => return Err(e),
    }
    match check_buffer("weight", weight_len, "out_features*in_features", w_expected) {
        Ok(_) => {},
        Err(e) => return Err(e),
    }
    match check_buffer("out", out_len, "rows*out_features", out_expected) {
        Ok(_) => {},
        Err(e) => return Err(e),
    }
    match bias_len {
        Some(n) => check_buffer("bias", n, "out_features", out_features),
        None => Ok(()),
    }
}

/// The refusal of values that were read back or are to be written, and are not
/// as many as they should be.
pub open spec fn transfer_refusal(
    backend: Seq<char>,
    before: Seq<char>,
    len: nat,
    between: Seq<char>,
    expected: nat,
) -> crate::shapes::Refusal {
    crate::rope::rope_refuse_if(
        len != expected,
        backend,
        before + crate::text::dec(len) + between + crate::text::dec(expected),
    )
}

/// Checks that as many values were moved as there should be.
pub fn check_transfer(backend: &str, before: &str, len: usize, between: &str, expected: usize) -> (r:
    Result<(), OcelotlError>)
    ensures
        crate::shapes::refused(r) == transfer_refusal(
            backend@,
            before@,
            len as nat,
            between@,
            expected as nat,
        ),
{
    if len != expected {
        Err(backend_err(backend, Text::new(before).n(len).s(between).n(expected).done()))
    } else {
        Ok(())
    }
}

} // verus!
