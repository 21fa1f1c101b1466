use vstd::prelude::*;

use crate::activation::sigmoid;
use crate::arith::{filled, Arith};
use crate::error::{kernel_err, OcelotlError};
use crate::expr::Term;
use crate::linear::linear_out_by_in_compute;
use crate::text::Text;

verus! {

/// The lengths of the operands of an LSTM step.
pub struct LstmLengths {
    pub x: nat,
    pub h: nat,
    pub c: nat,
    pub weight_ih: nat,
    pub weight_hh: nat,
    pub bias_ih: Option<nat>,
    pub bias_hh: Option<nat>,
    pub h_out: nat,
    pub c_out: nat,
}

/// The refusal of a pair of states that do not have the hidden size.
pub open spec fn state_pair_refusal(
    what: Seq<char>,
    h_name: Seq<char>,
    h: nat,
    c_name: Seq<char>,
    c: nat,
    hidden: nat,
) -> crate::shapes::Refusal {
    crate::shapes::refuse_if(
        h != hidden || c != hidden,
        "lstm_step "@ + what + " length mismatch: "@ + h_name + "="@ + crate::text::dec(h) + " "@
            + c_name + "="@ + crate::text::dec(c) + " expected "@ + crate::text::dec(hidden),
    )
}

/// The refusal of a weight or a bias that does not have its length.
pub open spec fn lstm_len_refusal(label: Seq<char>, len: nat, what: Seq<char>, expected: nat) -> crate::shapes::Refusal {
    crate::shapes::refuse_if(
        len != expected,
        "lstm_step "@ + label + ".len()="@ + crate::text::dec(len) + " does not match "@ + what
            + "="@ + crate::text::dec(expected),
    )
}

/// The refusal of an optional bias.
pub open spec fn lstm_bias_refusal(label: Seq<char>, len: Option<nat>, gates: nat) -> crate::shapes::Refusal {
    match len {
        Some(n) => lstm_len_refusal(label, n, "4*hidden"@, gates),
        None => None,
    }
}

/// When an LSTM step is refused, and how.
pub open spec fn lstm_refusal(n: LstmLengths, hidden: nat) -> crate::shapes::Refusal {
    let gates = 4 * hidden;
    crate::shapes::first(
        crate::shapes::refuse_if(hidden == 0, "lstm_step hidden must be non-zero"@),
        crate::shapes::first(
            crate::shapes::first(
                state_pair_refusal("state"@, "h"@, n.h, "c"@, n.c, hidden),
                state_pair_refusal("output"@, "h_out"@, n.h_out, "c_out"@, n.c_out, hidden),
            ),
            crate::shapes::first(
                crate::shapes::first(
                    lstm_len_refusal(
                        "weight_ih"@,
                        n.weight_ih,
                        "4*hidden*input_size"@,
                        gates * n.x,
                    ),
                    lstm_len_refusal("weight_hh"@, n.weight_hh, "4*hidden*hidden"@, gates * hidden),
                ),
                crate::shapes::first(
                    lstm_bias_refusal("bias_ih"@, n.bias_ih, gates),
                    lstm_bias_refusal("bias_hh"@, n.bias_hh, gates),
                ),
            ),
        ),
    )
}

/// The products that the checks come to compute fit into a `usize`.
pub open spec fn lstm_fits(n: LstmLengths, hidden: nat) -> bool {
    hidden > 0 ==> {
        &&& 4 * hidden <= usize::MAX
        &&& n.h == hidden && n.c == hidden && n.h_out == hidden && n.c_out == hidden ==> {
            &&& 4 * hidden * n.x <= usize::MAX
            &&& n.weight_ih == 4 * hidden * n.x ==> 4 * hidden * hidden <= usize::MAX
        }
    }
}

fn check_states(
    what: &str,
    h_name: &str,
    h: usize,
    c_name: &str,
    c: usize,
    hidden: usize,
) -> (r: Result<(), OcelotlError>)
    ensures
        crate::shapes::refused(r) == state_pair_refusal(
            what@,
            h_name@,
            h as nat,
            c_name@,
            c as nat,
            hidden as nat,
        ),
{
    if h != hidden || c != hidden {
        Err(
            kernel_err(
                Text::new("lstm_step ").s(what).s(" length mismatch: ").s(h_name).s("=").n(h).s(
                    " ",
                ).s(c_name).s("=").n(c).s(" expected ").n(hidden).done(),
            ),
        )
    } else {
        Ok(())
    }
}

fn check_len(label: &str, len: usize, what: &str, expected: usize) -> (r: Result<
    (),
    OcelotlError,
>)
    ensures
        crate::shapes::refused(r) == lstm_len_refusal(
            label@,
            len as nat,
            what@,
            expected as nat,
        ),
{
    if len != expected {
        Err(
            kernel_err(
                Text::new("lstm_step ").s(label).s(".len()=").n(len).s(" does not match ").s(
                    what,
                ).s("=").n(expected).done(),
            ),
        )
    } else {
        Ok(())
    }
}

fn check_bias<T>(label: &str, bias: Option<&[T]>, gates: usize) -> (r: Result<(), OcelotlError>)
    ensures
        crate::shapes::refused(r) == lstm_bias_refusal(
            label@,
            crate::linear::bias_len(bias),
            gates as nat,
        ),
{
    match bias {
        Some(b) => check_len(label, b.len(), "4*hidden", gates),
        None => Ok(()),
    }
}

/// The gates of one cell: input, forget, candidate and output.
pub struct LstmGates<T> {
    pub input: T,
    pub forget: T,
    pub candidate: T,
    pub output: T,
}

/// The gates of cell `i`: the four quarters of the sums, in this order; the
/// third goes through `tanh`, the others through the sigmoid.
pub open spec fn lstm_gates<T, A: Arith<T>>(
    ar: &A,
    sums: Seq<T>,
    hidden: int,
    i: int,
    g: LstmGates<T>,
) -> bool {
    &&& crate::activation::is_sigmoid(ar, sums[i], g.input)
    &&& crate::activation::is_sigmoid(ar, sums[hidden + i], g.forget)
    &&& crate::arith::tanhs(ar, sums[2 * hidden + i], g.candidate)
    &&& crate::activation::is_sigmoid(ar, sums[3 * hidden + i], g.output)
}

/// `c` may be `forget * before + input * candidate`, and `h` be
/// `output * tanh(c)`.
pub open spec fn lstm_state<T, A: Arith<T>>(ar: &A, g: LstmGates<T>, before: T, c: T, h: T) -> bool {
    &&& crate::expr::evals(
        ar,
        crate::expr::Expr::Value(g.forget).times(crate::expr::Expr::Value(before)).plus(
            crate::expr::Expr::Value(g.input).times(crate::expr::Expr::Value(g.candidate)),
        ),
        c,
    )
    &&& crate::expr::evals(
        ar,
        crate::expr::Expr::Value(g.output).times(crate::expr::Expr::Value(c).tangent()),
        h,
    )
}

/// The new states of cell `i`.
pub open spec fn lstm_cell<T, A: Arith<T>>(
    ar: &A,
    sums: Seq<T>,
    hidden: int,
    i: int,
    before: T,
    c: T,
    h: T,
) -> bool {
    exists|g: LstmGates<T>| #[trigger]
        lstm_gates(ar, sums, hidden, i, g) && lstm_state(ar, g, before, c, h)
}

/// The sums that the gates are made of: the projections of the input and of the
/// state, added.
pub open spec fn lstm_sums<T, A: Arith<T>>(
    ar: &A,
    x: Seq<T>,
    h: Seq<T>,
    weight_ih: Seq<T>,
    weight_hh: Seq<T>,
    bias_ih: Option<Seq<T>>,
    bias_hh: Option<Seq<T>>,
    hidden: int,
    from_x: Seq<T>,
    from_h: Seq<T>,
    sums: Seq<T>,
) -> bool {
    &&& from_x.len() == 4 * hidden
    &&& from_h.len() == 4 * hidden
    &&& sums.len() == 4 * hidden
    &&& crate::linear::is_linear(
        ar,
        x,
        weight_ih,
        bias_ih,
        x.len() as int,
        4 * hidden,
        from_x,
    )
    &&& crate::linear::is_linear(ar, h, weight_hh, bias_hh, hidden, 4 * hidden, from_h)
    &&& forall|i: int|
        0 <= i < sums.len() ==> crate::arith::adds(ar, from_x[i], from_h[i], #[trigger] sums[i])
}

/// The new states may be what an LSTM step gives.
pub open spec fn is_lstm<T, A: Arith<T>>(
    ar: &A,
    x: Seq<T>,
    h: Seq<T>,
    c: Seq<T>,
    weight_ih: Seq<T>,
    weight_hh: Seq<T>,
    bias_ih: Option<Seq<T>>,
    bias_hh: Option<Seq<T>>,
    hidden: int,
    h_out: Seq<T>,
    c_out: Seq<T>,
) -> bool {
    exists|from_x: Seq<T>, from_h: Seq<T>, sums: Seq<T>| #[trigger]
        lstm_sums(
            ar,
            x,
            h,
            weight_ih,
            weight_hh,
            bias_ih,
            bias_hh,
            hidden,
            from_x,
            from_h,
            sums,
        ) && forall|i: int|
            0 <= i < hidden ==> lstm_cell(
                ar,
                sums,
                hidden,
                i,
                c[i],
                #[trigger] c_out[i],
                h_out[i],
            )
}

/// One step of an LSTM; the gates are stacked as input, forget, candidate and
/// output.
pub fn lstm_step<T: Copy, A: Arith<T>>(
    ar: &A,
    x: &[T],
    h: &[T],
    c: &[T],
    weight_ih: &[T],
    weight_hh: &[T],
    bias_ih: Option<&[T]>,
    bias_hh: Option<&[T]>,
    hidden: usize,
    h_out: &mut [T],
    c_out: &mut [T],
) -> (r: Result<(), OcelotlError>)
    requires
        lstm_fits(
            (LstmLengths {
                x: x@.len(),
                h: h@.len(),
                c: c@.len(),
                weight_ih: weight_ih@.len(),
                weight_hh: weight_hh@.len(),
                bias_ih: crate::linear::bias_len(bias_ih),
                bias_hh: crate::linear::bias_len(bias_hh),
                h_out: old(h_out)@.len(),
                c_out: old(c_out)@.len(),
            }),
            hidden as nat,
        ),
    ensures
        final(h_out)@.len() == old(h_out)@.len(),
        final(c_out)@.len() == old(c_out)@.len(),
        crate::shapes::refused(r) == lstm_refusal(
            (LstmLengths {
                x: x@.len(),
                h: h@.len(),
                c: c@.len(),
                weight_ih: weight_ih@.len(),
                weight_hh: weight_hh@.len(),
                bias_ih: crate::linear::bias_len(bias_ih),
                bias_hh: crate::linear::bias_len(bias_hh),
                h_out: old(h_out)@.len(),
                c_out: old(c_out)@.len(),
            }),
            hidden as nat,
        ),
        r is Err ==> final(h_out)@ == old(h_out)@ && final(c_out)@ == old(c_out)@,
        r is Ok ==> is_lstm(
            ar,
            x@,
            h@,
            c@,
            weight_ih@,
            weight_hh@,
            crate::linear::bias_view(bias_ih),
            crate::linear::bias_view(bias_hh),
            hidden as int,
            final(h_out)@,
            final(c_out)@,
        ),
{
    if hidden == 0 {
        return Err(kernel_err(String::from_str("lstm_step hidden must be non-zero")));
    }
    let input_size: usize = x.len();
    let gates_len: usize = 4 * hidden;
    match check_states("state", "h", h.len(), "c", c.len(), hidden) {
        Ok(_) => {},
        Err(e) => return Err(e),
    }
    match check_states("output", "h_out", h_out.len(), "c_out", c_out.len(), hidden) {
        Ok(_) => {},
        Err(e) => return Err(e),
    }
    match check_len("weight_ih", weight_ih.len(), "4*hidden*input_size", gates_len * input_size) {
        Ok(_) => {},
        Err(e) => return Err(e),
    }
    match check_len("weight_hh", weight_hh.len(), "4*hidden*hidden", gates_len * hidden) {
        Ok(_) => {},
        Err(e) => return Err(e),
    }
    match check_bias("bias_ih", bias_ih, gates_len) {
        Ok(_) => {},
        Err(e) => return Err(e),
    }
    match check_bias("bias_hh", bias_hh, gates_len) {
        Ok(_) => {},
        Err(e) => return Err(e),
    }
    let zero: T = ar.from_int(0);
    let mut gates: Vec<T> = filled(zero, gates_len);
    linear_out_by_in_compute(
        ar,
        x,
        1,
        input_size,
        weight_ih,
        gates_len,
        bias_ih,
        gates.as_mut_slice(),
    );
    let mut from_h: Vec<T> = filled(zero, gates_len);
    linear_out_by_in_compute(
        ar,
        h,
        1,
        hidden,
        weight_hh,
        gates_len,
        bias_hh,
        from_h.as_mut_slice(),
    );
    let ghost from_x = gates@;
    let mut k: usize = 0;
    while k < gates_len
        invariant
            gates_len == gates@.len() == from_h@.len() == from_x.len(),
            k <= gates_len,
            forall|i: int| k <= i < gates_len ==> #[trigger] gates@[i] == from_x[i],
            forall|i: int|
                0 <= i < k ==> crate::arith::adds(ar, from_x[i], from_h@[i], #[trigger] gates@[i]),
        decreases gates_len - k,
    {
        let s: T = ar.add(gates[k], from_h[k]);
        gates.set(k, s);
        k = k + 1;
    }
    let ghost sums = gates@;
    assert(lstm_sums(
        ar,
        x@,
        h@,
        weight_ih@,
        weight_hh@,
        crate::linear::bias_view(bias_ih),
        crate::linear::bias_view(bias_hh),
        hidden as int,
        from_x,
        from_h@,
        sums,
    ));
    let mut idx: usize = 0;
    while idx < hidden
        invariant
            gates_len == 4 * hidden,
            sums == gates@,
            sums.len() == gates_len,
            c@.len() == hidden,
            c_out@.len() == hidden,
            h_out@.len() == hidden,
            idx <= hidden,
            forall|i: int|
                0 <= i < idx ==> lstm_cell(
                    ar,
                    sums,
                    hidden as int,
                    i,
                    c@[i],
                    #[trigger] c_out@[i],
                    h_out@[i],
                ),
        decreases hidden - idx,
    {
        let i: T = sigmoid(ar, gates[idx]);
        let f: T = sigmoid(ar, gates[hidden + idx]);
        let g: T = ar.tanh(gates[2 * hidden + idx]);
        let o: T = sigmoid(ar, gates[3 * hidden + idx]);
        let next_c = Term::of(ar, f).times(ar, &Term::of(ar, c[idx])).plus(
            ar,
            &Term::of(ar, i).times(ar, &Term::of(ar, g)),
        );
        let next_h = Term::of(ar, o).times(ar, &Term::of(ar, next_c.value).tangent(ar));
        c_out[idx] = next_c.value;
        h_out[idx] = next_h.value;
        proof {
            let gs = LstmGates { input: i, forget: f, candidate: g, output: o };
            assert(lstm_gates(ar, sums, hidden as int, idx as int, gs));
            assert(lstm_state(ar, gs, c@[idx as int], next_c.value, next_h.value));
        }
        idx = idx + 1;
    }
    Ok(())
}

} // verus!
