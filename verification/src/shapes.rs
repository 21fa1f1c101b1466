use vstd::prelude::*;

use crate::error::{kernel_err, OcelotlError};
use crate::text::Text;

verus! {

/// What an error says, where there is one.
pub type Refusal = Option<crate::error::ErrorView>;

/// Why a call was refused; nothing where it was not.
pub open spec fn refused<T>(r: Result<T, OcelotlError>) -> Refusal {
    match r {
        Ok(_) => None,
        Err(e) => Some(e@),
    }
}

/// The first of two refusals.
pub open spec fn first(a: Refusal, b: Refusal) -> Refusal {
    if a is Some {
        a
    } else {
        b
    }
}

/// A refusal with the given message, if the condition holds.
pub open spec fn refuse_if(c: bool, message: Seq<char>) -> Refusal {
    if c {
        Some(crate::error::cpu_error(message))
    } else {
        None
    }
}

/// The refusal of a tensor whose length is not the expected one.
pub open spec fn len_refusal(
    kernel: Seq<char>,
    label: Seq<char>,
    len: nat,
    what: Seq<char>,
    expected: nat,
) -> Refusal {
    refuse_if(
        len != expected,
        kernel + label + crate::text::dec(len) + what + crate::text::dec(expected),
    )
}

fn check2(c: bool, kernel: &str, message: &str) -> (r: Result<(), OcelotlError>)
    ensures
        refused(r) == refuse_if(c, kernel@ + message@),
{
    if c {
        Err(kernel_err(Text::new(kernel).s(message).done()))
    } else {
        Ok(())
    }
}

fn check_len(kernel: &str, label: &str, len: usize, what: &str, expected: usize) -> (r: Result<
    (),
    OcelotlError,
>)
    ensures
        refused(r) == len_refusal(kernel@, label@, len as nat, what@, expected as nat),
{
    if len != expected {
        Err(kernel_err(Text::new(kernel).s(label).n(len).s(what).n(expected).done()))
    } else {
        Ok(())
    }
}

/// The product of two dimensions, or the refusal of an overflow.
fn mul_or(a: usize, b: usize, kernel: &str, message: &str) -> (r: Result<usize, OcelotlError>)
    ensures
        refused(r) == refuse_if(a * b > usize::MAX, kernel@ + message@),
        r matches Ok(p) ==> p == a * b,
{
    match a.checked_mul(b) {
        Some(p) => Ok(p),
        None => Err(kernel_err(Text::new(kernel).s(message).done())),
    }
}

/// The refusal of a shape whose product, taken from the left, overflows.
pub open spec fn product_refusal(kernel: Seq<char>, label: Seq<char>, dims: Seq<usize>) -> Refusal {
    refuse_if(
        !crate::kv_cache::product_fits(dims),
        kernel + " "@ + label + " shape product overflows usize: "@ + ("["@
            + crate::text::dec_list(dims) + "]"@),
    )
}

/// The product of the dimensions of an operand.
pub fn checked_len_product(kernel: &str, label: &str, dims: &[usize]) -> (r: Result<
    usize,
    OcelotlError,
>)
    ensures
        refused(r) == product_refusal(kernel@, label@, dims@),
        r matches Ok(n) ==> n == crate::kv_cache::product(dims@),
{
    match crate::kv_cache::checked_product("", dims) {
        Ok(n) => {
            assert(dims@.take(dims@.len() as int) =~= dims@);
            Ok(n)
        },
        Err(_) => Err(
            kernel_err(
                Text::new(kernel).s(" ").s(label).s(" shape product overflows usize: ").list(
                    dims,
                ).done(),
            ),
        ),
    }
}

/// The product of the two dimensions of a matrix operand.
fn matrix_len(kernel: &str, label: &str, rows: usize, cols: usize) -> (r: Result<
    usize,
    OcelotlError,
>)
    ensures
        refused(r) == product_refusal(kernel@, label@, seq![rows, cols]),
        r is Ok <==> rows * cols <= usize::MAX,
        r matches Ok(n) ==> n == rows * cols,
{
    let dims: [usize; 2] = [rows, cols];
    proof {
        crate::kv_cache::product_of_two(rows, cols);
        assert(dims@ =~= seq![rows, cols]);
    }
    checked_len_product(kernel, label, &dims)
}

/// When a matrix product is refused, and how.
pub open spec fn matmul_refusal(
    a_len: nat,
    a_shape: (usize, usize),
    b_len: nat,
    b_shape: (usize, usize),
    out_len: nat,
) -> Refusal {
    let (m, k) = a_shape;
    let (k_b, n) = b_shape;
    let mismatch = |label: Seq<char>, len: nat, r: usize, c: usize|
        refuse_if(
            len != r * c,
            "matmul "@ + label + " slice length "@ + crate::text::dec(len)
                + " does not match shape "@ + crate::text::dec(r as nat) + "x"@ + crate::text::dec(
                c as nat,
            ),
        );
    first(
        refuse_if(
            k != k_b,
            "matmul inner-dimension mismatch: a is "@ + crate::text::dec(m as nat) + "x"@
                + crate::text::dec(k as nat) + ", b is "@ + crate::text::dec(k_b as nat) + "x"@
                + crate::text::dec(n as nat),
        ),
        first(
            first(
                product_refusal("matmul"@, "a"@, seq![m, k]),
                first(
                    product_refusal("matmul"@, "b"@, seq![k_b, n]),
                    product_refusal("matmul"@, "out"@, seq![m, n]),
                ),
            ),
            first(
                mismatch("a"@, a_len, m, k),
                first(mismatch("b"@, b_len, k_b, n), mismatch("out"@, out_len, m, n)),
            ),
        ),
    )
}

fn matmul_mismatch(label: &str, len: usize, r: usize, c: usize) -> (e: OcelotlError)
    ensures
        e@ == crate::error::cpu_error(
            "matmul "@ + label@ + " slice length "@ + crate::text::dec(len as nat)
                + " does not match shape "@ + crate::text::dec(r as nat) + "x"@ + crate::text::dec(
                c as nat,
            ),
        ),
{
    kernel_err(
        Text::new("matmul ").s(label).s(" slice length ").n(len).s(" does not match shape ").n(
            r,
        ).s("x").n(c).done(),
    )
}

/// Checks the operands of a matrix product; gives back rows, inner dimension
/// and columns.
pub fn validate_matmul(
    a_len: usize,
    a_shape: (usize, usize),
    b_len: usize,
    b_shape: (usize, usize),
    out_len: usize,
) -> (r: Result<(usize, usize, usize), OcelotlError>)
    ensures
        refused(r) == matmul_refusal(
            a_len as nat,
            a_shape,
            b_len as nat,
            b_shape,
            out_len as nat,
        ),
        r matches Ok((m, k, n)) ==> {
            &&& (m, k) == a_shape
            &&& (k, n) == b_shape
            &&& a_len == m * k
            &&& b_len == k * n
            &&& out_len == m * n
        },
{
    let (m, k): (usize, usize) = a_shape;
    let (k_b, n): (usize, usize) = b_shape;
    if k != k_b {
        return Err(
            kernel_err(
                Text::new("matmul inner-dimension mismatch: a is ").n(m).s("x").n(k).s(
                    ", b is ",
                ).n(k_b).s("x").n(n).done(),
            ),
        );
    }
    let a_expected: usize = match matrix_len("matmul", "a", m, k) {
        Ok(n) => n,
        Err(e) => return Err(e),
    };
    let b_expected: usize = match matrix_len("matmul", "b", k_b, n) {
        Ok(n) => n,
        Err(e) => return Err(e),
    };
    let out_expected: usize = match matrix_len("matmul", "out", m, n) {
        Ok(n) => n,
        Err(e) => return Err(e),
    };
    if a_len != a_expected {
        return Err(matmul_mismatch("a", a_len, m, k));
    }
    if b_len != b_expected {
        return Err(matmul_mismatch("b", b_len, k_b, n));
    }
    if out_len != out_expected {
        return Err(matmul_mismatch("out", out_len, m, n));
    }
    Ok((m, k, n))
}

/// The refusal of an operand of a linear projection.
pub open spec fn linear_len_refusal(label: Seq<char>, len: nat, what: Seq<char>, r: usize, c: usize) -> Refusal {
    refuse_if(
        len != r * c,
        "linear_out_by_in "@ + label + ".len()="@ + crate::text::dec(len) + " does not match "@
            + what + "="@ + crate::text::dec(r as nat) + "*"@ + crate::text::dec(c as nat) + "="@
            + crate::text::dec((r * c) as nat),
    )
}

/// When a linear projection is refused, and how.
pub open spec fn linear_refusal(
    x_len: nat,
    rows: usize,
    in_features: usize,
    weight_len: nat,
    out_features: usize,
    bias_len: Option<nat>,
    out_len: nat,
) -> Refusal {
    first(
        first(
            product_refusal("linear_out_by_in"@, "x"@, seq![rows, in_features]),
            first(
                product_refusal("linear_out_by_in"@, "weight"@, seq![out_features, in_features]),
                product_refusal("linear_out_by_in"@, "out"@, seq![rows, out_features]),
            ),
        ),
        first(
            linear_len_refusal("x"@, x_len, "rows*in_features"@, rows, in_features),
            first(
                linear_len_refusal(
                    "weight"@,
                    weight_len,
                    "out_features*in_features"@,
                    out_features,
                    in_features,
                ),
                first(
                    match bias_len {
                        Some(len) => refuse_if(
                            len != out_features,
                            "linear_out_by_in bias.len()="@ + crate::text::dec(len)
                                + " does not match out_features="@ + crate::text::dec(
                                out_features as nat,
                            ),
                        ),
                        None => None,
                    },
                    linear_len_refusal("out"@, out_len, "rows*out_features"@, rows, out_features),
                ),
            ),
        ),
    )
}

fn linear_mismatch(label: &str, len: usize, what: &str, r: usize, c: usize, p: usize) -> (e:
    OcelotlError)
    requires
        p == r * c,
        len != p,
    ensures
        Some(e@) == linear_len_refusal(label@, len as nat, what@, r, c),
{
    kernel_err(
        Text::new("linear_out_by_in ").s(label).s(".len()=").n(len).s(" does not match ").s(
            what,
        ).s("=").n(r).s("*").n(c).s("=").n(p).done(),
    )
}

/// Checks the operands of a linear projection with a weight of one row per
/// output.
pub fn validate_linear_out_by_in(
    x_len: usize,
    rows: usize,
    in_features: usize,
    weight_len: usize,
    out_features: usize,
    bias_len: Option<usize>,
    out_len: usize,
) -> (r: Result<(), OcelotlError>)
    ensures
        refused(r) == linear_refusal(
            x_len as nat,
            rows,
            in_features,
            weight_len as nat,
            out_features,
            (match bias_len {
                Some(n) => Some(n as nat),
                None => None,
            }),
            out_len as nat,
        ),
        r is Ok ==> {
            &&& x_len == rows * in_features
            &&& weight_len == out_features * in_features
            &&& out_len == rows * out_features
            &&& bias_len matches Some(n) ==> n == out_features
        },
{
    let x_expected: usize = match matrix_len("linear_out_by_in", "x", rows, in_features) {
        Ok(n) => n,
        Err(e) => return Err(e),
    };
    let weight_expected: usize = match matrix_len(
        "linear_out_by_in",
        "weight",
        out_features,
        in_features,
    ) {
        Ok(n) => n,
        Err(e) => return Err(e),
    };
    let out_expected: usize = match matrix_len("linear_out_by_in", "out", rows, out_features) {
        Ok(n) => n,
        Err(e) => return Err(e),
    };
    if x_len != x_expected {
        return Err(
            linear_mismatch("x", x_len, "rows*in_features", rows, in_features, x_expected),
        );
    }
    if weight_len != weight_expected {
        return Err(
            linear_mismatch(
                "weight",
                weight_len,
                "out_features*in_features",
                out_features,
                in_features,
                weight_expected,
            ),
        );
    }
    match bias_len {
        Some(len) => if len != out_features {
            return Err(
                kernel_err(
                    Text::new("linear_out_by_in bias.len()=").n(len).s(
                        " does not match out_features=",
                    ).n(out_features).done(),
                ),
            );
        },
        None => {},
    }
    if out_len != out_expected {
        return Err(
            linear_mismatch(
                "out",
                out_len,
                "rows*out_features",
                rows,
                out_features,
                out_expected,
            ),
        );
    }
    Ok(())
}

/// When a copy into a part of a tensor is refused, and how.
pub open spec fn copy_refusal(src_len: nat, dst_len: nat, dst_offset: nat) -> Refusal {
    first(
        refuse_if(
            dst_offset + src_len > usize::MAX,
            "copy_into_d dst_offset + src.len overflowed usize"@,
        ),
        refuse_if(
            dst_offset + src_len > dst_len,
            "copy_into_d range "@ + crate::text::dec(dst_offset) + ".."@ + crate::text::dec(
                dst_offset + src_len,
            ) + " exceeds dst len "@ + crate::text::dec(dst_len),
        ),
    )
}

/// Checks that `src_len` values fit into a tensor at an offset.
pub fn validate_copy_into_shapes(src_len: usize, dst_len: usize, dst_offset: usize) -> (r: Result<
    (),
    OcelotlError,
>)
    ensures
        refused(r) == copy_refusal(src_len as nat, dst_len as nat, dst_offset as nat),
        r is Ok <==> dst_offset + src_len <= dst_len,
{
    match dst_offset.checked_add(src_len) {
        None => Err(
            kernel_err(String::from_str("copy_into_d dst_offset + src.len overflowed usize")),
        ),
        Some(end) => if end > dst_len {
            Err(
                kernel_err(
                    Text::new("copy_into_d range ").n(dst_offset).s("..").n(end).s(
                        " exceeds dst len ",
                    ).n(dst_len).done(),
                ),
            )
        } else {
            Ok(())
        },
    }
}

/// The refusal of a head count and head width, and of their product.
pub open spec fn state_refusal(kernel: Seq<char>, n_head: nat, head_dim: nat) -> Refusal {
    first(
        refuse_if(n_head == 0, kernel + " n_head must be > 0"@),
        first(
            refuse_if(head_dim == 0, kernel + " head_dim must be > 0"@),
            refuse_if(n_head * head_dim > usize::MAX, kernel + " n_head*head_dim overflowed usize"@),
        ),
    )
}

/// The values of one row: all heads, one after the other.
fn state_of(kernel: &str, n_head: usize, head_dim: usize) -> (r: Result<usize, OcelotlError>)
    ensures
        refused(r) == state_refusal(kernel@, n_head as nat, head_dim as nat),
        r matches Ok(s) ==> s == n_head * head_dim && n_head > 0 && head_dim > 0 && s > 0,
{
    match check2(n_head == 0, kernel, " n_head must be > 0") {
        Ok(_) => {},
        Err(e) => return Err(e),
    }
    match check2(head_dim == 0, kernel, " head_dim must be > 0") {
        Ok(_) => {},
        Err(e) => return Err(e),
    }
    assert(n_head * head_dim > 0) by (nonlinear_arith)
        requires
            n_head > 0,
            head_dim > 0,
    ;
    mul_or(n_head, head_dim, kernel, " n_head*head_dim overflowed usize")
}

/// When self-attention over whole sequences is refused, and how.
pub open spec fn self_attention_refusal(
    kernel: Seq<char>,
    q_len: nat,
    k_len: nat,
    v_len: nat,
    seq: nat,
    n_head: nat,
    head_dim: nat,
    out_len: nat,
) -> Refusal {
    let expected = seq * (n_head * head_dim);
    first(
        state_refusal(kernel, n_head, head_dim),
        first(
            refuse_if(expected > usize::MAX, kernel + " seq*state overflowed usize"@),
            first(
                len_refusal(kernel, " q len "@, q_len, " != seq*state "@, expected),
                first(
                    len_refusal(kernel, " k len "@, k_len, " != seq*state "@, expected),
                    first(
                        len_refusal(kernel, " v len "@, v_len, " != seq*state "@, expected),
                        len_refusal(kernel, " out len "@, out_len, " != seq*state "@, expected),
                    ),
                ),
            ),
        ),
    )
}

fn validate_self_attention(
    kernel: &str,
    q_len: usize,
    k_len: usize,
    v_len: usize,
    seq: usize,
    n_head: usize,
    head_dim: usize,
    out_len: usize,
) -> (r: Result<(), OcelotlError>)
    ensures
        refused(r) == self_attention_refusal(
            kernel@,
            q_len as nat,
            k_len as nat,
            v_len as nat,
            seq as nat,
            n_head as nat,
            head_dim as nat,
            out_len as nat,
        ),
        r is Ok ==> {
            &&& n_head > 0
            &&& head_dim > 0
            &&& q_len == seq * (n_head * head_dim)
            &&& k_len == q_len
            &&& v_len == q_len
            &&& out_len == q_len
        },
{
    let state: usize = match state_of(kernel, n_head, head_dim) {
        Ok(s) => s,
        Err(e) => return Err(e),
    };
    let expected: usize = match mul_or(seq, state, kernel, " seq*state overflowed usize") {
        Ok(n) => n,
        Err(e) => return Err(e),
    };
    match check_len(kernel, " q len ", q_len, " != seq*state ", expected) {
        Ok(_) => {},
        Err(e) => return Err(e),
    }
    match check_len(kernel, " k len ", k_len, " != seq*state ", expected) {
        Ok(_) => {},
        Err(e) => return Err(e),
    }
    match check_len(kernel, " v len ", v_len, " != seq*state ", expected) {
        Ok(_) => {},
        Err(e) => return Err(e),
    }
    check_len(kernel, " out len ", out_len, " != seq*state ", expected)
}

/// Checks the operands of encoder self-attention.
pub fn validate_attention_encoder_shapes(
    q_len: usize,
    k_len: usize,
    v_len: usize,
    seq: usize,
    n_head: usize,
    head_dim: usize,
    out_len: usize,
) -> (r: Result<(), OcelotlError>)
    ensures
        refused(r) == self_attention_refusal(
            "attention_encoder_d"@,
            q_len as nat,
            k_len as nat,
            v_len as nat,
            seq as nat,
            n_head as nat,
            head_dim as nat,
            out_len as nat,
        ),
        r is Ok ==> {
            &&& n_head > 0
            &&& head_dim > 0
            &&& q_len == seq * (n_head * head_dim)
            &&& k_len == q_len
            &&& v_len == q_len
            &&& out_len == q_len
        },
{
    validate_self_attention(
        "attention_encoder_d",
        q_len,
        k_len,
        v_len,
        seq,
        n_head,
        head_dim,
        out_len,
    )
}

/// Checks the operands of causal decoder self-attention.
pub fn validate_attention_decoder_causal_shapes(
    q_len: usize,
    k_len: usize,
    v_len: usize,
    seq: usize,
    n_head: usize,
    head_dim: usize,
    out_len: usize,
) -> (r: Result<(), OcelotlError>)
    ensures
        refused(r) == self_attention_refusal(
            "attention_decoder_causal_d"@,
            q_len as nat,
            k_len as nat,
            v_len as nat,
            seq as nat,
            n_head as nat,
            head_dim as nat,
            out_len as nat,
        ),
        r is Ok ==> {
            &&& n_head > 0
            &&& head_dim > 0
            &&& q_len == seq * (n_head * head_dim)
            &&& k_len == q_len
            &&& v_len == q_len
            &&& out_len == q_len
        },
{
    validate_self_attention(
        "attention_decoder_causal_d",
        q_len,
        k_len,
        v_len,
        seq,
        n_head,
        head_dim,
        out_len,
    )
}

/// When attention of one new row over a separate past is refused, and how.
pub open spec fn incremental_refusal(
    q_len: nat,
    past_k_len: nat,
    past_v_len: nat,
    new_k_len: nat,
    new_v_len: nat,
    past_seq: nat,
    n_head: nat,
    head_dim: nat,
    out_len: nat,
) -> Refusal {
    let kernel = "attention_decoder_incremental_d"@;
    let state = n_head * head_dim;
    let past = past_seq * state;
    first(
        state_refusal(kernel, n_head, head_dim),
        first(
            first(
                len_refusal(kernel, " q len "@, q_len, " != state "@, state),
                first(
                    len_refusal(kernel, " new_k len "@, new_k_len, " != state "@, state),
                    first(
                        len_refusal(kernel, " new_v len "@, new_v_len, " != state "@, state),
                        len_refusal(kernel, " out len "@, out_len, " != state "@, state),
                    ),
                ),
            ),
            first(
                refuse_if(past > usize::MAX, kernel + " past_seq*state overflowed usize"@),
                first(
                    len_refusal(kernel, " past_k len "@, past_k_len, " != past_seq*state "@, past),
                    len_refusal(kernel, " past_v len "@, past_v_len, " != past_seq*state "@, past),
                ),
            ),
        ),
    )
}

/// Checks the operands of attention of one new row over a separate past.
pub fn validate_attention_decoder_incremental_shapes(
    q_len: usize,
    past_k_len: usize,
    past_v_len: usize,
    new_k_len: usize,
    new_v_len: usize,
    past_seq: usize,
    n_head: usize,
    head_dim: usize,
    out_len: usize,
) -> (r: Result<(), OcelotlError>)
    ensures
        refused(r) == incremental_refusal(
            q_len as nat,
            past_k_len as nat,
            past_v_len as nat,
            new_k_len as nat,
            new_v_len as nat,
            past_seq as nat,
            n_head as nat,
            head_dim as nat,
            out_len as nat,
        ),
        r is Ok ==> {
            &&& n_head > 0
            &&& head_dim > 0
            &&& q_len == n_head * head_dim
            &&& new_k_len == q_len
            &&& new_v_len == q_len
            &&& out_len == q_len
            &&& past_k_len == past_seq * (n_head * head_dim)
            &&& past_v_len == past_k_len
        },
{
    let kernel: &str = "attention_decoder_incremental_d";
    let state: usize = match state_of(kernel, n_head, head_dim) {
        Ok(s) => s,
        Err(e) => return Err(e),
    };
    match check_len(kernel, " q len ", q_len, " != state ", state) {
        Ok(_) => {},
        Err(e) => return Err(e),
    }
    match check_len(kernel, " new_k len ", new_k_len, " != state ", state) {
        Ok(_) => {},
        Err(e) => return Err(e),
    }
    match check_len(kernel, " new_v len ", new_v_len, " != state ", state) {
        Ok(_) => {},
        Err(e) => return Err(e),
    }
    match check_len(kernel, " out len ", out_len, " != state ", state) {
        Ok(_) => {},
        Err(e) => return Err(e),
    }
    let past: usize = match mul_or(past_seq, state, kernel, " past_seq*state overflowed usize") {
        Ok(n) => n,
        Err(e) => return Err(e),
    };
    match check_len(kernel, " past_k len ", past_k_len, " != past_seq*state ", past) {
        Ok(_) => {},
        Err(e) => return Err(e),
    }
    check_len(kernel, " past_v len ", past_v_len, " != past_seq*state ", past)
}

/// When attention over the visible rows of a cache is refused, and how.
pub open spec fn cache_refusal(
    q_len: nat,
    key_len: nat,
    value_len: nat,
    visible_seq: nat,
    cache_capacity: nat,
    n_head: nat,
    head_dim: nat,
    out_len: nat,
) -> Refusal {
    let kernel = "attention_decoder_incremental_cache_d"@;
    let state = n_head * head_dim;
    let cache = cache_capacity * state;
    first(
        first(
            refuse_if(visible_seq == 0, kernel + " visible_seq must be > 0"@),
            refuse_if(
                visible_seq > cache_capacity,
                kernel + " visible_seq "@ + crate::text::dec(visible_seq)
                    + " exceeds cache_capacity "@ + crate::text::dec(cache_capacity),
            ),
        ),
        first(
            state_refusal(kernel, n_head, head_dim),
            first(
                first(
                    len_refusal(kernel, " q len "@, q_len, " != state "@, state),
                    len_refusal(kernel, " out len "@, out_len, " != state "@, state),
                ),
                first(
                    refuse_if(cache > usize::MAX, kernel + " cache_capacity*state overflowed usize"@),
                    first(
                        len_refusal(
                            kernel,
                            " key_cache len "@,
                            key_len,
                            " != cache_capacity*state "@,
                            cache,
                        ),
                        len_refusal(
                            kernel,
                            " value_cache len "@,
                            value_len,
                            " != cache_capacity*state "@,
                            cache,
                        ),
                    ),
                ),
            ),
        ),
    )
}

/// The lengths that attention over a cache needs.
pub open spec fn cache_shapes(
    q_len: nat,
    key_len: nat,
    value_len: nat,
    visible_seq: nat,
    cache_capacity: nat,
    n_head: nat,
    head_dim: nat,
    out_len: nat,
) -> bool {
    &&& 0 < visible_seq <= cache_capacity
    &&& n_head > 0
    &&& head_dim > 0
    &&& q_len == n_head * head_dim
    &&& out_len == q_len
    &&& key_len == cache_capacity * (n_head * head_dim)
    &&& value_len == key_len
}

/// Checks the operands of attention over the visible rows of a cache.
pub fn validate_attention_decoder_incremental_cache_shapes(
    q_len: usize,
    key_len: usize,
    value_len: usize,
    visible_seq: usize,
    cache_capacity: usize,
    n_head: usize,
    head_dim: usize,
    out_len: usize,
) -> (r: Result<(), OcelotlError>)
    ensures
        refused(r) == cache_refusal(
            q_len as nat,
            key_len as nat,
            value_len as nat,
            visible_seq as nat,
            cache_capacity as nat,
            n_head as nat,
            head_dim as nat,
            out_len as nat,
        ),
        r is Ok ==> cache_shapes(
            q_len as nat,
            key_len as nat,
            value_len as nat,
            visible_seq as nat,
            cache_capacity as nat,
            n_head as nat,
            head_dim as nat,
            out_len as nat,
        ),
{
    let kernel: &str = "attention_decoder_incremental_cache_d";
    match check2(visible_seq == 0, kernel, " visible_seq must be > 0") {
        Ok(_) => {},
        Err(e) => return Err(e),
    }
    if visible_seq > cache_capacity {
        return Err(
            kernel_err(
                Text::new(kernel).s(" visible_seq ").n(visible_seq).s(
                    " exceeds cache_capacity ",
                ).n(cache_capacity).done(),
            ),
        );
    }
    let state: usize = match state_of(kernel, n_head, head_dim) {
        Ok(s) => s,
        Err(e) => return Err(e),
    };
    match check_len(kernel, " q len ", q_len, " != state ", state) {
        Ok(_) => {},
        Err(e) => return Err(e),
    }
    match check_len(kernel, " out len ", out_len, " != state ", state) {
        Ok(_) => {},
        Err(e) => return Err(e),
    }
    let cache: usize = match mul_or(
        cache_capacity,
        state,
        kernel,
        " cache_capacity*state overflowed usize",
    ) {
        Ok(n) => n,
        Err(e) => return Err(e),
    };
    match check_len(kernel, " key_cache len ", key_len, " != cache_capacity*state ", cache) {
        Ok(_) => {},
        Err(e) => return Err(e),
    }
    check_len(kernel, " value_cache len ", value_len, " != cache_capacity*state ", cache)
}

/// When appending one row to a cache and attending over it is refused, and how.
pub open spec fn append_refusal(
    q_len: nat,
    key_len: nat,
    value_len: nat,
    new_k_len: nat,
    new_v_len: nat,
    past_seq: nat,
    cache_capacity: nat,
    n_head: nat,
    head_dim: nat,
    out_len: nat,
) -> Refusal {
    let kernel = "attention_decoder_incremental_cache_append_d"@;
    let state = n_head * head_dim;
    first(
        refuse_if(
            past_seq >= cache_capacity,
            kernel + " past_seq "@ + crate::text::dec(past_seq)
                + " cannot append into cache_capacity "@ + crate::text::dec(cache_capacity),
        ),
        first(
            cache_refusal(
                q_len,
                key_len,
                value_len,
                past_seq + 1,
                cache_capacity,
                n_head,
                head_dim,
                out_len,
            ),
            first(
                len_refusal(kernel, " new_k len "@, new_k_len, " != state "@, state),
                len_refusal(kernel, " new_v len "@, new_v_len, " != state "@, state),
            ),
        ),
    )
}

/// Checks the operands of appending one row to a cache and attending over it.
pub fn validate_attention_decoder_incremental_cache_append_shapes(
    q_len: usize,
    key_len: usize,
    value_len: usize,
    new_k_len: usize,
    new_v_len: usize,
    past_seq: usize,
    cache_capacity: usize,
    n_head: usize,
    head_dim: usize,
    out_len: usize,
) -> (r: Result<(), OcelotlError>)
    ensures
        refused(r) == append_refusal(
            q_len as nat,
            key_len as nat,
            value_len as nat,
            new_k_len as nat,
            new_v_len as nat,
            past_seq as nat,
            cache_capacity as nat,
            n_head as nat,
            head_dim as nat,
            out_len as nat,
        ),
        r is Ok ==> {
            &&& past_seq < cache_capacity
            &&& cache_shapes(
                q_len as nat,
                key_len as nat,
                value_len as nat,
                (past_seq + 1) as nat,
                cache_capacity as nat,
                n_head as nat,
                head_dim as nat,
                out_len as nat,
            )
            &&& new_k_len == q_len
            &&& new_v_len == q_len
        },
{
    let kernel: &str = "attention_decoder_incremental_cache_append_d";
    if past_seq >= cache_capacity {
        return Err(
            kernel_err(
                Text::new(kernel).s(" past_seq ").n(past_seq).s(
                    " cannot append into cache_capacity ",
                ).n(cache_capacity).done(),
            ),
        );
    }
    match validate_attention_decoder_incremental_cache_shapes(
        q_len,
        key_len,
        value_len,
        past_seq + 1,
        cache_capacity,
        n_head,
        head_dim,
        out_len,
    ) {
        Ok(_) => {},
        Err(e) => return Err(e),
    }
    match check_len(kernel, " new_k len ", new_k_len, " != state ", q_len) {
        Ok(_) => {},
        Err(e) => return Err(e),
    }
    check_len(kernel, " new_v len ", new_v_len, " != state ", q_len)
}

/// When attention of decoder rows over encoder rows is refused, and how.
pub open spec fn cross_refusal(
    q_len: nat,
    k_len: nat,
    v_len: nat,
    q_seq: nat,
    kv_seq: nat,
    n_head: nat,
    head_dim: nat,
    out_len: nat,
) -> Refusal {
    let kernel = "attention_decoder_cross_d"@;
    let state = n_head * head_dim;
    let q = q_seq * state;
    let kv = kv_seq * state;
    first(
        state_refusal(kernel, n_head, head_dim),
        first(
            first(
                refuse_if(q > usize::MAX, kernel + " q_seq*state overflowed usize"@),
                refuse_if(kv > usize::MAX, kernel + " kv_seq*state overflowed usize"@),
            ),
            first(
                first(
                    len_refusal(kernel, " q len "@, q_len, " != q_seq*state "@, q),
                    len_refusal(kernel, " out len "@, out_len, " != q_seq*state "@, q),
                ),
                first(
                    len_refusal(kernel, " k len "@, k_len, " != kv_seq*state "@, kv),
                    len_refusal(kernel, " v len "@, v_len, " != kv_seq*state "@, kv),
                ),
            ),
        ),
    )
}

/// Checks the operands of attention of decoder rows over encoder rows.
pub fn validate_attention_decoder_cross_shapes(
    q_len: usize,
    k_len: usize,
    v_len: usize,
    q_seq: usize,
    kv_seq: usize,
    n_head: usize,
    head_dim: usize,
    out_len: usize,
) -> (r: Result<(), OcelotlError>)
    ensures
        refused(r) == cross_refusal(
            q_len as nat,
            k_len as nat,
            v_len as nat,
            q_seq as nat,
            kv_seq as nat,
            n_head as nat,
            head_dim as nat,
            out_len as nat,
        ),
        r is Ok ==> {
            &&& n_head > 0
            &&& head_dim > 0
            &&& q_len == q_seq * (n_head * head_dim)
            &&& out_len == q_len
            &&& k_len == kv_seq * (n_head * head_dim)
            &&& v_len == k_len
        },
{
    let kernel: &str = "attention_decoder_cross_d";
    let state: usize = match state_of(kernel, n_head, head_dim) {
        Ok(s) => s,
        Err(e) => return Err(e),
    };
    let q: usize = match mul_or(q_seq, state, kernel, " q_seq*state overflowed usize") {
        Ok(n) => n,
        Err(e) => return Err(e),
    };
    let kv: usize = match mul_or(kv_seq, state, kernel, " kv_seq*state overflowed usize") {
        Ok(n) => n,
        Err(e) => return Err(e),
    };
    match check_len(kernel, " q len ", q_len, " != q_seq*state ", q) {
        Ok(_) => {},
        Err(e) => return Err(e),
    }
    match check_len(kernel, " out len ", out_len, " != q_seq*state ", q) {
        Ok(_) => {},
        Err(e) => return Err(e),
    }
    match check_len(kernel, " k len ", k_len, " != kv_seq*state ", kv) {
        Ok(_) => {},
        Err(e) => return Err(e),
    }
    check_len(kernel, " v len ", v_len, " != kv_seq*state ", kv)
}

/// When a layer normalisation is refused, and how.
pub open spec fn layer_norm_refusal(
    x_len: nat,
    rows: nat,
    hidden: nat,
    weight_len: nat,
    bias_len: nat,
    out_len: nat,
) -> Refusal {
    let kernel = "layer_norm_d"@;
    let expected = rows * hidden;
    first(
        refuse_if(expected > usize::MAX, kernel + " rows*hidden overflowed usize"@),
        first(
            len_refusal(kernel, " x len "@, x_len, " != rows*hidden "@, expected),
            first(
                len_refusal(kernel, " out len "@, out_len, " != rows*hidden "@, expected),
                first(
                    len_refusal(kernel, " weight len "@, weight_len, " != hidden "@, hidden),
                    len_refusal(kernel, " bias len "@, bias_len, " != hidden "@, hidden),
                ),
            ),
        ),
    )
}

/// Checks the operands of a layer normalisation.
pub fn validate_layer_norm_shapes(
    x_len: usize,
    rows: usize,
    hidden: usize,
    weight_len: usize,
    bias_len: usize,
    out_len: usize,
) -> (r: Result<(), OcelotlError>)
    ensures
        refused(r) == layer_norm_refusal(
            x_len as nat,
            rows as nat,
            hidden as nat,
            weight_len as nat,
            bias_len as nat,
            out_len as nat,
        ),
        r is Ok ==> {
            &&& x_len == rows * hidden
            &&& out_len == x_len
            &&& weight_len == hidden
            &&& bias_len == hidden
        },
{
    let kernel: &str = "layer_norm_d";
    let expected: usize = match mul_or(rows, hidden, kernel, " rows*hidden overflowed usize") {
        Ok(n) => n,
        Err(e) => return Err(e),
    };
    match check_len(kernel, " x len ", x_len, " != rows*hidden ", expected) {
        Ok(_) => {},
        Err(e) => return Err(e),
    }
    match check_len(kernel, " out len ", out_len, " != rows*hidden ", expected) {
        Ok(_) => {},
        Err(e) => return Err(e),
    }
    match check_len(kernel, " weight len ", weight_len, " != hidden ", hidden) {
        Ok(_) => {},
        Err(e) => return Err(e),
    }
    check_len(kernel, " bias len ", bias_len, " != hidden ", hidden)
}

/// When adding rows of a positional embedding is refused, and how.
pub open spec fn positional_refusal(
    x_len: nat,
    rows: nat,
    cols: nat,
    pe_len: nat,
    pe_rows: nat,
    start_pos: nat,
) -> Refusal {
    let kernel = "add_positional_embedding_d"@;
    first(
        first(
            refuse_if(rows * cols > usize::MAX, kernel + " rows*cols overflowed usize"@),
            refuse_if(pe_rows * cols > usize::MAX, kernel + " pe_rows*cols overflowed usize"@),
        ),
        first(
            first(
                len_refusal(kernel, " x len "@, x_len, " != rows*cols "@, rows * cols),
                len_refusal(kernel, " pe len "@, pe_len, " != pe_rows*cols "@, pe_rows * cols),
            ),
            first(
                refuse_if(
                    start_pos + rows > usize::MAX,
                    kernel + " start_pos+rows overflowed usize"@,
                ),
                refuse_if(
                    start_pos + rows > pe_rows,
                    kernel + " start_pos "@ + crate::text::dec(start_pos) + " + rows "@
                        + crate::text::dec(rows) + " exceeds pe_rows "@ + crate::text::dec(pe_rows),
                ),
            ),
        ),
    )
}

/// Checks the operands of adding rows of a positional embedding.
pub fn validate_add_positional_embedding_shapes(
    x_len: usize,
    rows: usize,
    cols: usize,
    pe_len: usize,
    pe_rows: usize,
    start_pos: usize,
) -> (r: Result<(), OcelotlError>)
    ensures
        refused(r) == positional_refusal(
            x_len as nat,
            rows as nat,
            cols as nat,
            pe_len as nat,
            pe_rows as nat,
            start_pos as nat,
        ),
        r is Ok ==> {
            &&& x_len == rows * cols
            &&& pe_len == pe_rows * cols
            &&& start_pos + rows <= pe_rows
        },
{
    let kernel: &str = "add_positional_embedding_d";
    let x_expected: usize = match mul_or(rows, cols, kernel, " rows*cols overflowed usize") {
        Ok(n) => n,
        Err(e) => return Err(e),
    };
    let pe_expected: usize = match mul_or(
        pe_rows,
        cols,
        kernel,
        " pe_rows*cols overflowed usize",
    ) {
        Ok(n) => n,
        Err(e) => return Err(e),
    };
    match check_len(kernel, " x len ", x_len, " != rows*cols ", x_expected) {
        Ok(_) => {},
        Err(e) => return Err(e),
    }
    match check_len(kernel, " pe len ", pe_len, " != pe_rows*cols ", pe_expected) {
        Ok(_) => {},
        Err(e) => return Err(e),
    }
    match start_pos.checked_add(rows) {
        None => check2(true, kernel, " start_pos+rows overflowed usize"),
        Some(end) => if end > pe_rows {
            Err(
                kernel_err(
                    Text::new(kernel).s(" start_pos ").n(start_pos).s(" + rows ").n(rows).s(
                        " exceeds pe_rows ",
                    ).n(pe_rows).done(),
                ),
            )
        } else {
            Ok(())
        },
    }
}

/// Operands that can be appended can be attended over with one row more.
pub proof fn append_implies_attend(
    q_len: nat,
    key_len: nat,
    value_len: nat,
    new_k_len: nat,
    new_v_len: nat,
    past_seq: nat,
    cache_capacity: nat,
    n_head: nat,
    head_dim: nat,
    out_len: nat,
)
    requires
        append_refusal(
            q_len,
            key_len,
            value_len,
            new_k_len,
            new_v_len,
            past_seq,
            cache_capacity,
            n_head,
            head_dim,
            out_len,
        ) is None,
    ensures
        cache_refusal(
            q_len,
            key_len,
            value_len,
            past_seq + 1,
            cache_capacity,
            n_head,
            head_dim,
            out_len,
        ) is None,
        copy_refusal(new_k_len, key_len, past_seq * (n_head * head_dim)) is None,
        copy_refusal(new_v_len, value_len, past_seq * (n_head * head_dim)) is None,
{
    let state = n_head * head_dim;
    assert(past_seq * state + state <= cache_capacity * state) by (nonlinear_arith)
        requires
            past_seq + 1 <= cache_capacity,
    ;
}

} // verus!
