use vstd::prelude::*;

use crate::arith::Arith;
use crate::reals::Reals;

verus! {

/// The weights, biases and states of an LSTM step.
pub struct LstmInputs<T> {
    pub x: Seq<T>,
    pub h: Seq<T>,
    pub c: Seq<T>,
    pub weight_ih: Seq<T>,
    pub weight_hh: Seq<T>,
    pub bias_ih: Option<Seq<T>>,
    pub bias_hh: Option<Seq<T>>,
    pub hidden: int,
}

impl<T> LstmInputs<T> {
    /// The lengths of an LSTM step.
    pub open spec fn wf(self) -> bool {
        &&& self.hidden > 0
        &&& self.h.len() == self.hidden
        &&& self.c.len() == self.hidden
        &&& self.weight_ih.len() == 4 * self.hidden * self.x.len()
        &&& self.weight_hh.len() == 4 * self.hidden * self.hidden
    }

    /// `h_out` and `c_out` may be the states after the step.
    pub open spec fn steps_to<A: Arith<T>>(self, ar: &A, h_out: Seq<T>, c_out: Seq<T>) -> bool {
        crate::recurrent::is_lstm(
            ar,
            self.x,
            self.h,
            self.c,
            self.weight_ih,
            self.weight_hh,
            self.bias_ih,
            self.bias_hh,
            self.hidden,
            h_out,
            c_out,
        )
    }

    /// What row `k` of the weights makes of the input and the state, as a real
    /// number.
    pub open spec fn gate(self, re: Reals<T>, k: int) -> real {
        let first = match self.bias_ih {
            Some(b) => (re.value)(b[k]),
            None => 0real,
        };
        let second = match self.bias_hh {
            Some(b) => (re.value)(b[k]),
            None => 0real,
        };
        (first + crate::reals::sum(
            |j: int| (re.value)(self.x[j]) * (re.value)(self.weight_ih[k * self.x.len() + j]),
            self.x.len(),
        )) + (second + crate::reals::sum(
            |j: int| (re.value)(self.h[j]) * (re.value)(self.weight_hh[k * self.hidden + j]),
            self.hidden as nat,
        ))
    }
}

/// `1 / (1 + exp(-z))`
pub open spec fn opening<T>(re: Reals<T>, z: real) -> real {
    1real / (1real + (re.exp)(-z))
}

proof fn opening_of<T, A: Arith<T>>(ar: &A, re: Reals<T>, z: T, r: T)
    requires
        re.exact(ar),
        re.exponentials(),
        crate::activation::is_sigmoid(ar, z, r),
    ensures
        (re.value)(r) == opening(re, (re.value)(z)),
{
    crate::activation_laws::sigmoid_value(ar, re, z, r);
    let up = (re.exp)(-(re.value)(z));
    re.exp_of_sum(-(re.value)(z), 0real);
    let v = (re.value)(r);
    assert(v == 1real / (1real + up)) by (nonlinear_arith)
        requires
            v * (1real + up) == 1real,
            up > 0real,
    ;
}

/// What an LSTM step does to cell `i`: the rows `i`, `n + i`, `2 * n + i` and
/// `3 * n + i` of the weights open the input gate, open the forget gate, give the
/// candidate and open the output gate. The cell keeps what the forget gate lets
/// through and takes what the input gate lets through of the candidate; the state
/// is what the output gate lets through of the cell. Without rounding.
pub proof fn gates_of_a_cell<T, A: Arith<T>>(
    ar: &A,
    re: Reals<T>,
    s: LstmInputs<T>,
    h_out: Seq<T>,
    c_out: Seq<T>,
    i: int,
)
    requires
        re.exact(ar),
        re.exponentials(),
        s.wf(),
        s.steps_to(ar, h_out, c_out),
        0 <= i < s.hidden,
    ensures
        (re.value)(c_out[i]) == opening(re, s.gate(re, s.hidden + i)) * (re.value)(s.c[i]) + opening(
            re,
            s.gate(re, i),
        ) * (re.tanh)(s.gate(re, 2 * s.hidden + i)),
        (re.value)(h_out[i]) == opening(re, s.gate(re, 3 * s.hidden + i)) * (re.tanh)(
            (re.value)(c_out[i]),
        ),
{
    let val = re.value;
    let n = s.hidden;
    let (from_x, from_h, sums) = choose|from_x: Seq<T>, from_h: Seq<T>, sums: Seq<T>| #[trigger]
        crate::recurrent::lstm_sums(
            ar,
            s.x,
            s.h,
            s.weight_ih,
            s.weight_hh,
            s.bias_ih,
            s.bias_hh,
            n,
            from_x,
            from_h,
            sums,
        ) && forall|i: int|
            0 <= i < n ==> crate::recurrent::lstm_cell(
                ar,
                sums,
                n,
                i,
                s.c[i],
                #[trigger] c_out[i],
                h_out[i],
            );
    assert forall|k: int| 0 <= k < 4 * n implies val(#[trigger] sums[k]) == s.gate(re, k) by {
        row_value(ar, re, s.x, s.weight_ih, s.bias_ih, 4 * n, from_x, k);
        row_value(ar, re, s.h, s.weight_hh, s.bias_hh, 4 * n, from_h, k);
        assert(crate::arith::adds(ar, from_x[k], from_h[k], sums[k]));
    }
    assert(crate::recurrent::lstm_cell(ar, sums, n, i, s.c[i], c_out[i], h_out[i]));
    let g = choose|g: crate::recurrent::LstmGates<T>| #[trigger]
        crate::recurrent::lstm_gates(ar, sums, n, i, g) && crate::recurrent::lstm_state(
            ar,
            g,
            s.c[i],
            c_out[i],
            h_out[i],
        );
    opening_of(ar, re, sums[i], g.input);
    opening_of(ar, re, sums[n + i], g.forget);
    opening_of(ar, re, sums[3 * n + i], g.output);
    assert(val(sums[2 * n + i]) == s.gate(re, 2 * n + i));
    reveal_with_fuel(Reals::eval, 5);
    re.evals_value(
        ar,
        crate::expr::Expr::Value(g.forget).times(crate::expr::Expr::Value(s.c[i])).plus(
            crate::expr::Expr::Value(g.input).times(crate::expr::Expr::Value(g.candidate)),
        ),
        c_out[i],
    );
    re.evals_value(
        ar,
        crate::expr::Expr::Value(g.output).times(crate::expr::Expr::Value(c_out[i]).tangent()),
        h_out[i],
    );
}

/// One row of a projection of one vector.
proof fn row_value<T, A: Arith<T>>(
    ar: &A,
    re: Reals<T>,
    x: Seq<T>,
    w: Seq<T>,
    bias: Option<Seq<T>>,
    outs: int,
    out: Seq<T>,
    k: int,
)
    requires
        re.exact(ar),
        crate::linear::is_linear(ar, x, w, bias, x.len() as int, outs, out),
        w.len() == outs * x.len(),
        out.len() == outs,
        0 <= k < outs,
    ensures
        (re.value)(out[k]) == (match bias {
            Some(b) => (re.value)(b[k]),
            None => 0real,
        }) + crate::reals::sum(
            |j: int| (re.value)(x[j]) * (re.value)(w[k * x.len() + j]),
            x.len(),
        ),
{
    let n = x.len() as int;
    crate::linear_laws::projections_sum_products(ar, re, x, w, bias, 1, n, outs, out, 0, k);
    assert(0 * outs + k == k);
    let f = |j: int| (re.value)(x[0 * n + j]) * (re.value)(w[k * n + j]);
    let g = |j: int| (re.value)(x[j]) * (re.value)(w[k * x.len() + j]);
    assert forall|j: int| 0 <= j < n implies #[trigger] f(j) == g(j) by {
        assert(0 * n + j == j);
    }
    crate::reals::equal_sums(f, g, x.len());
}

/// The bias `of_one` of one cell holds the numbers `i`, `n + i`, `2 * n + i` and
/// `3 * n + i` of the bias of `n` cells; or neither is there.
pub open spec fn cell_bias<T>(all: Option<Seq<T>>, of_one: Option<Seq<T>>, n: int, i: int) -> bool {
    match (all, of_one) {
        (Some(b), Some(d)) => forall|q: int| 0 <= q < 4 ==> #[trigger] d[q] == b[q * n + i],
        (None, None) => true,
        _ => false,
    }
}

/// The cells of a step do not mix: without recurrent weights, cell `i` of a step of
/// `n` cells becomes what the only cell of a step of one becomes, on the rows `i`,
/// `n + i`, `2 * n + i` and `3 * n + i` of the weights and biases. Without rounding.
pub proof fn cells_are_independent<T, A: Arith<T>>(
    ar: &A,
    re: Reals<T>,
    s: LstmInputs<T>,
    one: LstmInputs<T>,
    h_out: Seq<T>,
    c_out: Seq<T>,
    h_one: Seq<T>,
    c_one: Seq<T>,
    i: int,
)
    requires
        re.exact(ar),
        re.exponentials(),
        s.wf(),
        one.wf(),
        s.steps_to(ar, h_out, c_out),
        one.steps_to(ar, h_one, c_one),
        0 <= i < s.hidden,
        one.hidden == 1,
        one.x == s.x,
        one.c[0] == s.c[i],
        forall|k: int| 0 <= k < s.weight_hh.len() ==> (re.value)(#[trigger] s.weight_hh[k]) == 0real,
        forall|k: int|
            0 <= k < one.weight_hh.len() ==> (re.value)(#[trigger] one.weight_hh[k]) == 0real,
        forall|q: int, j: int|
            0 <= q < 4 && 0 <= j < s.x.len() ==> #[trigger] one.weight_ih[q * s.x.len() + j]
                == s.weight_ih[(q * s.hidden + i) * s.x.len() + j],
        cell_bias(s.bias_ih, one.bias_ih, s.hidden, i),
        cell_bias(s.bias_hh, one.bias_hh, s.hidden, i),
    ensures
        (re.value)(c_out[i]) == (re.value)(c_one[0]),
        (re.value)(h_out[i]) == (re.value)(h_one[0]),
{
    gates_of_a_cell(ar, re, s, h_out, c_out, i);
    gates_of_a_cell(ar, re, one, h_one, c_one, 0);
    assert forall|q: int| 0 <= q < 4 implies #[trigger] one.gate(re, q) == s.gate(
        re,
        q * s.hidden + i,
    ) by {
        let k = q * s.hidden + i;
        let n = s.x.len();
        crate::reals::equal_sums(
            |j: int| (re.value)(one.x[j]) * (re.value)(one.weight_ih[q * one.x.len() + j]),
            |j: int| (re.value)(s.x[j]) * (re.value)(s.weight_ih[k * s.x.len() + j]),
            n,
        );
        no_state(re, s, k);
        no_state(re, one, q);
        if let (Some(b), Some(d)) = (s.bias_ih, one.bias_ih) {
            assert(d[q] == b[k]);
        }
        if let (Some(b), Some(d)) = (s.bias_hh, one.bias_hh) {
            assert(d[q] == b[k]);
        }
    }
    assert(one.gate(re, 0) == s.gate(re, 0 * s.hidden + i));
    assert(one.gate(re, 1) == s.gate(re, 1 * s.hidden + i));
    assert(one.gate(re, 2) == s.gate(re, 2 * s.hidden + i));
    assert(one.gate(re, 3) == s.gate(re, 3 * s.hidden + i));
}

proof fn no_state<T>(re: Reals<T>, s: LstmInputs<T>, k: int)
    requires
        s.wf(),
        0 <= k < 4 * s.hidden,
        forall|k: int| 0 <= k < s.weight_hh.len() ==> (re.value)(#[trigger] s.weight_hh[k]) == 0real,
    ensures
        crate::reals::sum(
            |j: int| (re.value)(s.h[j]) * (re.value)(s.weight_hh[k * s.hidden + j]),
            s.hidden as nat,
        ) == 0real,
{
    let f = |j: int| (re.value)(s.h[j]) * (re.value)(s.weight_hh[k * s.hidden + j]);
    crate::grid::row_bound(k, 4 * s.hidden, s.hidden);
    assert forall|j: int| 0 <= j < s.hidden implies #[trigger] f(j) == 0real by {
        assert((re.value)(s.weight_hh[k * s.hidden + j]) == 0real);
        let a = (re.value)(s.h[j]);
        assert(a * 0real == 0real) by (nonlinear_arith);
    }
    crate::reals::zero_sum(f, s.hidden as nat);
}

} // verus!
