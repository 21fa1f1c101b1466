use vstd::prelude::*;

use crate::arith::Arith;

verus! {

/// Exact values of scalars: which scalar is which value, how values are added
/// and multiplied, the value of zero, and how large a value is. Results up to
/// the bound are exact.
#[verifier::reject_recursive_types(T)]
#[verifier::reject_recursive_types(V)]
pub struct Exact<T, V> {
    pub is: spec_fn(T, V) -> bool,
    pub plus: spec_fn(V, V) -> V,
    pub times: spec_fn(V, V) -> V,
    pub zero: V,
    pub size: spec_fn(V) -> nat,
    pub bound: nat,
}

impl<T, V> Exact<T, V> {
    /// The values can be added in any order, and sums are not larger than their
    /// parts together.
    #[verifier::opaque]
    pub open spec fn adds_freely(self) -> bool {
        &&& forall|a: V, b: V, c: V| #[trigger]
            (self.plus)((self.plus)(a, b), c) == (self.plus)(a, (self.plus)(b, c))
        &&& forall|a: V, b: V| #[trigger] (self.plus)(a, b) == (self.plus)(b, a)
        &&& forall|a: V| #[trigger] (self.plus)(self.zero, a) == a
        &&& forall|a: V, b: V| (self.size)(#[trigger] (self.plus)(a, b)) <= (self.size)(a) + (
        self.size)(b)
        &&& (self.size)(self.zero) == 0
    }

    /// The operations on scalars give the exact values, up to the bound.
    #[verifier::opaque]
    pub open spec fn agrees<A: Arith<T>>(self, ar: &A) -> bool {
        &&& forall|z: T| #[trigger] crate::arith::converts(ar, 0, z) ==> (self.is)(z, self.zero)
        &&& forall|a: T, b: T, r: T, m: V, n: V|
            #[trigger] crate::arith::adds(ar, a, b, r) && #[trigger] (self.is)(a, m)
                && #[trigger] (self.is)(b, n) && (self.size)(m) + (self.size)(n) <= self.bound ==> (
            self.is)(r, (self.plus)(m, n))
        &&& forall|a: T, b: T, r: T, m: V, n: V|
            #[trigger] crate::arith::muls(ar, a, b, r) && #[trigger] (self.is)(a, m)
                && #[trigger] (self.is)(b, n) && (self.size)((self.times)(m, n)) <= self.bound ==> (
            self.is)(r, (self.times)(m, n))
        &&& forall|a: T, b: T, c: T, r: T, m: V, n: V, k: V|
            #[trigger] crate::arith::fuses(ar, a, b, c, r) && #[trigger] (self.is)(a, m)
                && #[trigger] (self.is)(b, n) && #[trigger] (self.is)(c, k) && (self.size)(
                (self.times)(m, n),
            ) + (self.size)(k) <= self.bound ==> (self.is)(
                r,
                (self.plus)((self.times)(m, n), k),
            )
    }

    /// Every scalar is the value at its place.
    pub open spec fn are(self, s: Seq<T>, v: Seq<V>) -> bool {
        s.len() == v.len() && forall|i: int|
            0 <= i < s.len() ==> (self.is)(#[trigger] s[i], v[i])
    }

    /// Product `k` of two rows of values.
    pub open spec fn product(self, x: Seq<V>, w: Seq<V>, k: int) -> V {
        (self.times)(x[k], w[k])
    }

    /// The sum of the first `n` products.
    pub open spec fn dot(self, x: Seq<V>, w: Seq<V>, n: nat) -> V
        decreases n,
    {
        if n == 0 {
            self.zero
        } else {
            (self.plus)(self.dot(x, w, (n - 1) as nat), self.product(x, w, n - 1))
        }
    }

    /// How large the first `n` products are together.
    pub open spec fn weight(self, x: Seq<V>, w: Seq<V>, n: nat) -> nat
        decreases n,
    {
        if n == 0 {
            0
        } else {
            self.weight(x, w, (n - 1) as nat) + (self.size)(self.product(x, w, n - 1))
        }
    }

    /// The sum of every eighth product, from product `l` on.
    spec fn lane(self, x: Seq<V>, w: Seq<V>, l: int, c: nat) -> V
        decreases c,
    {
        if c == 0 {
            self.zero
        } else {
            (self.plus)(
                self.lane(x, w, l, (c - 1) as nat),
                self.product(x, w, (c - 1) * 8 + l),
            )
        }
    }

    /// How large every eighth product, from product `l` on, is together.
    spec fn lane_weight(self, x: Seq<V>, w: Seq<V>, l: int, c: nat) -> nat
        decreases c,
    {
        if c == 0 {
            0
        } else {
            self.lane_weight(x, w, l, (c - 1) as nat) + (self.size)(
                self.product(x, w, (c - 1) * 8 + l),
            )
        }
    }

    /// The sum of eight values, in the order of the lanes.
    spec fn tree(self, v: spec_fn(int) -> V) -> V {
        (self.plus)(
            (self.plus)((self.plus)(v(4), v(0)), (self.plus)(v(5), v(1))),
            (self.plus)((self.plus)(v(6), v(2)), (self.plus)(v(7), v(3))),
        )
    }

    proof fn regroup(self, a: V, b: V, c: V)
        requires
            self.adds_freely(),
        ensures
            (self.plus)((self.plus)(a, b), c) == (self.plus)(a, (self.plus)(b, c)),
    {
        reveal(Exact::adds_freely);
    }

    proof fn swap(self, a: V, b: V)
        requires
            self.adds_freely(),
        ensures
            (self.plus)(a, b) == (self.plus)(b, a),
    {
        reveal(Exact::adds_freely);
    }

    proof fn neutral(self, a: V)
        requires
            self.adds_freely(),
        ensures
            (self.plus)(self.zero, a) == a,
            (self.plus)(a, self.zero) == a,
            (self.size)(self.zero) == 0,
    {
        assert((self.plus)(self.zero, a) == a && (self.size)(self.zero) == 0) by {
            reveal(Exact::adds_freely);
        }
        self.swap(a, self.zero);
    }

    proof fn plus_size(self, a: V, b: V)
        requires
            self.adds_freely(),
        ensures
            (self.size)((self.plus)(a, b)) <= (self.size)(a) + (self.size)(b),
    {
        reveal(Exact::adds_freely);
    }

    proof fn interchange(self, a: V, b: V, c: V, d: V)
        requires
            self.adds_freely(),
        ensures
            (self.plus)((self.plus)(a, b), (self.plus)(c, d)) == (self.plus)(
                (self.plus)(a, c),
                (self.plus)(b, d),
            ),
    {
        let p = self.plus;
        self.regroup(a, b, p(c, d));
        self.regroup(b, c, d);
        self.swap(b, c);
        self.regroup(c, b, d);
        self.regroup(a, c, p(b, d));
    }

    proof fn tree_adds(self, u: spec_fn(int) -> V, v: spec_fn(int) -> V)
        requires
            self.adds_freely(),
        ensures
            self.tree(|l: int| (self.plus)(u(l), v(l))) == (self.plus)(self.tree(u), self.tree(v)),
    {
        let p = self.plus;
        self.interchange(u(4), v(4), u(0), v(0));
        self.interchange(u(5), v(5), u(1), v(1));
        self.interchange(u(6), v(6), u(2), v(2));
        self.interchange(u(7), v(7), u(3), v(3));
        self.interchange(p(u(4), u(0)), p(v(4), v(0)), p(u(5), u(1)), p(v(5), v(1)));
        self.interchange(p(u(6), u(2)), p(v(6), v(2)), p(u(7), u(3)), p(v(7), v(3)));
        self.interchange(
            p(p(u(4), u(0)), p(u(5), u(1))),
            p(p(v(4), v(0)), p(v(5), v(1))),
            p(p(u(6), u(2)), p(u(7), u(3))),
            p(p(v(6), v(2)), p(v(7), v(3))),
        );
    }

    proof fn four_from_left(self, s: V, a: V, b: V, c: V, d: V)
        requires
            self.adds_freely(),
        ensures
            (self.plus)(s, (self.plus)((self.plus)(a, b), (self.plus)(c, d))) == ({
                let p = self.plus;
                p(p(p(p(s, a), b), c), d)
            }),
    {
        let p = self.plus;
        self.regroup(s, a, b);
        self.regroup(p(s, p(a, b)), c, d);
        self.regroup(s, p(a, b), p(c, d));
    }

    /// A tree of eight values is the eight values from the left.
    proof fn tree_is_left(self, s: V, v: spec_fn(int) -> V)
        requires
            self.adds_freely(),
        ensures
            (self.plus)(s, self.tree(v)) == ({
                let p = self.plus;
                p(p(p(p(p(p(p(p(s, v(0)), v(1)), v(2)), v(3)), v(4)), v(5)), v(6)), v(7))
            }),
    {
        let p = self.plus;
        self.interchange(v(4), v(0), v(5), v(1));
        self.interchange(v(6), v(2), v(7), v(3));
        self.interchange(p(v(4), v(5)), p(v(0), v(1)), p(v(6), v(7)), p(v(2), v(3)));
        let low = p(p(v(0), v(1)), p(v(2), v(3)));
        let high = p(p(v(4), v(5)), p(v(6), v(7)));
        self.swap(high, low);
        self.regroup(s, low, high);
        self.four_from_left(s, v(0), v(1), v(2), v(3));
        self.four_from_left(p(s, low), v(4), v(5), v(6), v(7));
    }

    proof fn eight_more(self, x: Seq<V>, w: Seq<V>, k: nat)
        ensures
            self.dot(x, w, k + 8) == ({
                let p = self.plus;
                let v = |l: int| self.product(x, w, k + l);
                p(
                    p(
                        p(p(p(p(p(p(self.dot(x, w, k), v(0)), v(1)), v(2)), v(3)), v(4)), v(5)),
                        v(6),
                    ),
                    v(7),
                )
            }),
            self.weight(x, w, k + 8) == ({
                let v = |l: int| (self.size)(self.product(x, w, k + l));
                self.weight(x, w, k) + v(0) + v(1) + v(2) + v(3) + v(4) + v(5) + v(6) + v(7)
            }),
    {
        self.one_more(x, w, k);
        self.one_more(x, w, k + 1);
        self.one_more(x, w, k + 2);
        self.one_more(x, w, k + 3);
        self.one_more(x, w, k + 4);
        self.one_more(x, w, k + 5);
        self.one_more(x, w, k + 6);
        self.one_more(x, w, k + 7);
    }

    proof fn one_more(self, x: Seq<V>, w: Seq<V>, k: nat)
        ensures
            self.dot(x, w, k + 1) == (self.plus)(
                self.dot(x, w, k),
                self.product(x, w, k as int),
            ),
            self.weight(x, w, k + 1) == self.weight(x, w, k) + (self.size)(
                self.product(x, w, k as int),
            ),
    {
    }

    /// The sum of all lanes is the sum of all products up to there.
    proof fn lanes_sum(self, x: Seq<V>, w: Seq<V>, c: nat)
        requires
            self.adds_freely(),
        ensures
            self.tree(|l: int| self.lane(x, w, l, c)) == self.dot(x, w, c * 8),
        decreases c,
    {
        if c == 0 {
            self.neutral(self.zero);
        } else {
            let b = (c - 1) as nat;
            self.lanes_sum(x, w, b);
            let u = |l: int| self.lane(x, w, l, b);
            let v = |l: int| self.product(x, w, b * 8 + l);
            self.tree_adds(u, v);
            self.tree_is_left(self.dot(x, w, b * 8), v);
            self.eight_more(x, w, b * 8);
            assert(c * 8 == b * 8 + 8);
        }
    }

    /// How large the products of all lanes are together.
    spec fn lane_weights(self, x: Seq<V>, w: Seq<V>, c: nat) -> nat {
        self.lane_weight(x, w, 0, c) + self.lane_weight(x, w, 1, c) + self.lane_weight(x, w, 2, c)
            + self.lane_weight(x, w, 3, c) + self.lane_weight(x, w, 4, c) + self.lane_weight(
            x,
            w,
            5,
            c,
        ) + self.lane_weight(x, w, 6, c) + self.lane_weight(x, w, 7, c)
    }

    proof fn lanes_weigh(self, x: Seq<V>, w: Seq<V>, c: nat)
        ensures
            self.lane_weights(x, w, c) == self.weight(x, w, c * 8),
        decreases c,
    {
        if c > 0 {
            let b = (c - 1) as nat;
            self.lanes_weigh(x, w, b);
            self.eight_more(x, w, b * 8);
            assert(c * 8 == b * 8 + 8);
        }
    }

    proof fn dot_size(self, x: Seq<V>, w: Seq<V>, n: nat)
        requires
            self.adds_freely(),
        ensures
            (self.size)(self.dot(x, w, n)) <= self.weight(x, w, n),
        decreases n,
    {
        if n == 0 {
            self.neutral(self.zero);
        } else {
            self.dot_size(x, w, (n - 1) as nat);
            self.plus_size(self.dot(x, w, (n - 1) as nat), self.product(x, w, n - 1));
        }
    }

    proof fn lane_size(self, x: Seq<V>, w: Seq<V>, l: int, c: nat)
        requires
            self.adds_freely(),
        ensures
            (self.size)(self.lane(x, w, l, c)) <= self.lane_weight(x, w, l, c),
        decreases c,
    {
        if c == 0 {
            self.neutral(self.zero);
        } else {
            self.lane_size(x, w, l, (c - 1) as nat);
            self.plus_size(
                self.lane(x, w, l, (c - 1) as nat),
                self.product(x, w, (c - 1) * 8 + l),
            );
        }
    }

    proof fn weight_grows(self, x: Seq<V>, w: Seq<V>, m: nat, n: nat)
        requires
            m <= n,
        ensures
            self.weight(x, w, m) <= self.weight(x, w, n),
        decreases n,
    {
        if m < n {
            self.weight_grows(x, w, m, (n - 1) as nat);
        }
    }

    /// Every output starts from its bias, or from zero.
    pub open spec fn starts(self, bias: Option<Seq<T>>, bs: Seq<V>) -> bool {
        match bias {
            Some(b) => self.are(b, bs),
            None => forall|o: int| 0 <= o < bs.len() ==> #[trigger] bs[o] == self.zero,
        }
    }

    /// Cell `i` of a projection: the bias of its output, plus the products of its
    /// row and the weights of its output.
    pub open spec fn cell(self, xs: Seq<V>, ws: Seq<V>, bs: Seq<V>, n: int, outs: int, i: int) -> V {
        (self.plus)(
            bs[i % outs],
            self.dot(
                crate::linear::row(xs, n, i / outs),
                crate::linear::row(ws, n, i % outs),
                n as nat,
            ),
        )
    }

    /// The bias and the products of a cell are together not larger than the bound.
    pub open spec fn cell_fits(
        self,
        xs: Seq<V>,
        ws: Seq<V>,
        bs: Seq<V>,
        n: int,
        outs: int,
        i: int,
    ) -> bool {
        (self.size)(bs[i % outs]) + self.weight(
            crate::linear::row(xs, n, i / outs),
            crate::linear::row(ws, n, i % outs),
            n as nat,
        ) <= self.bound
    }

    proof fn rows_are(self, s: Seq<T>, v: Seq<V>, rows: int, n: int, r: int)
        requires
            self.are(s, v),
            s.len() == rows * n,
            0 <= r < rows,
            0 <= n,
        ensures
            self.are(crate::linear::row(s, n, r), crate::linear::row(v, n, r)),
            crate::linear::row(s, n, r).len() == n,
    {
        crate::grid::row_bound(r, rows, n);
        let a = crate::linear::row(s, n, r);
        let b = crate::linear::row(v, n, r);
        assert forall|i: int| 0 <= i < a.len() implies (self.is)(#[trigger] a[i], b[i]) by {
            assert(a[i] == s[r * n + i]);
        }
    }

    proof fn start_is<A: Arith<T>>(
        self,
        ar: &A,
        zero: T,
        bias: Option<Seq<T>>,
        bs: Seq<V>,
        o: int,
    )
        requires
            self.agrees(ar),
            self.starts(bias, bs),
            0 <= o < bs.len(),
            crate::arith::converts(ar, 0, zero),
        ensures
            (self.is)(crate::linear::start(zero, bias, o), bs[o]),
    {
        self.exact_zero(ar, zero);
    }

    proof fn plain_cell_exact<A: Arith<T>>(
        self,
        ar: &A,
        zero: T,
        x: Seq<T>,
        w: Seq<T>,
        bias: Option<Seq<T>>,
        xs: Seq<V>,
        ws: Seq<V>,
        bs: Seq<V>,
        n: int,
        rows: int,
        outs: int,
        i: int,
        v: T,
    )
        requires
            self.adds_freely(),
            self.agrees(ar),
            self.are(x, xs),
            self.are(w, ws),
            self.starts(bias, bs),
            crate::arith::converts(ar, 0, zero),
            0 <= n,
            0 < outs,
            x.len() == rows * n,
            w.len() == outs * n,
            bs.len() == outs,
            0 <= i < rows * outs,
            self.cell_fits(xs, ws, bs, n, outs, i),
            crate::linear::linear_cell(ar, zero, x, w, bias, n, i / outs, i % outs, v),
        ensures
            (self.is)(v, self.cell(xs, ws, bs, n, outs, i)),
    {
        crate::grid::index_row(i, rows, outs);
        let (r, o) = (i / outs, i % outs);
        self.rows_are(x, xs, rows, n, r);
        self.rows_are(w, ws, outs, n, o);
        self.start_is(ar, zero, bias, bs, o);
        self.dot_exact(
            ar,
            crate::linear::row(x, n, r),
            crate::linear::row(w, n, o),
            crate::linear::row(xs, n, r),
            crate::linear::row(ws, n, o),
            bs[o],
            crate::linear::start(zero, bias, o),
            v,
        );
    }

    proof fn lane_cell_exact<A: Arith<T>>(
        self,
        ar: &A,
        zero: T,
        x: Seq<T>,
        w: Seq<T>,
        bias: Option<Seq<T>>,
        xs: Seq<V>,
        ws: Seq<V>,
        bs: Seq<V>,
        n: int,
        rows: int,
        outs: int,
        i: int,
        v: T,
    )
        requires
            self.adds_freely(),
            self.agrees(ar),
            self.are(x, xs),
            self.are(w, ws),
            self.starts(bias, bs),
            crate::arith::converts(ar, 0, zero),
            0 <= n,
            0 < outs,
            x.len() == rows * n,
            w.len() == outs * n,
            bs.len() == outs,
            0 <= i < rows * outs,
            self.cell_fits(xs, ws, bs, n, outs, i),
            crate::lanes::lane_linear_cell(
                ar,
                zero,
                x,
                w,
                bias,
                n,
                rows,
                outs,
                i / outs,
                i % outs,
                v,
            ),
        ensures
            (self.is)(v, self.cell(xs, ws, bs, n, outs, i)),
    {
        crate::grid::index_row(i, rows, outs);
        let (r, o) = (i / outs, i % outs);
        if crate::lanes::in_tiles(rows, outs, r, o) {
            let (a, b) = (crate::linear::row(x, n, r), crate::linear::row(w, n, o));
            let (av, bv) = (crate::linear::row(xs, n, r), crate::linear::row(ws, n, o));
            let d = choose|d: T| #[trigger]
                crate::lanes::is_lane_dot(ar, a, b, d) && crate::arith::adds(
                    ar,
                    d,
                    crate::linear::start(zero, bias, o),
                    v,
                );
            self.rows_are(x, xs, rows, n, r);
            self.rows_are(w, ws, outs, n, o);
            self.start_is(ar, zero, bias, bs, o);
            self.lane_dot_exact(ar, a, b, av, bv, d);
            self.dot_size(av, bv, n as nat);
            let sum = self.dot(av, bv, n as nat);
            self.exact_add(ar, d, crate::linear::start(zero, bias, o), v, sum, bs[o]);
            self.swap(sum, bs[o]);
        } else {
            self.plain_cell_exact(ar, zero, x, w, bias, xs, ws, bs, n, rows, outs, i, v);
        }
    }

    proof fn exact_zero<A: Arith<T>>(self, ar: &A, z: T)
        requires
            self.agrees(ar),
            crate::arith::converts(ar, 0, z),
        ensures
            (self.is)(z, self.zero),
    {
        reveal(Exact::agrees);
    }

    proof fn exact_add<A: Arith<T>>(self, ar: &A, a: T, b: T, r: T, m: V, n: V)
        requires
            self.agrees(ar),
            crate::arith::adds(ar, a, b, r),
            (self.is)(a, m),
            (self.is)(b, n),
            (self.size)(m) + (self.size)(n) <= self.bound,
        ensures
            (self.is)(r, (self.plus)(m, n)),
    {
        reveal(Exact::agrees);
    }

    proof fn exact_mul<A: Arith<T>>(self, ar: &A, a: T, b: T, r: T, m: V, n: V)
        requires
            self.agrees(ar),
            crate::arith::muls(ar, a, b, r),
            (self.is)(a, m),
            (self.is)(b, n),
            (self.size)((self.times)(m, n)) <= self.bound,
        ensures
            (self.is)(r, (self.times)(m, n)),
    {
        reveal(Exact::agrees);
    }

    proof fn exact_fuse<A: Arith<T>>(self, ar: &A, a: T, b: T, c: T, r: T, m: V, n: V, k: V)
        requires
            self.agrees(ar),
            crate::arith::fuses(ar, a, b, c, r),
            (self.is)(a, m),
            (self.is)(b, n),
            (self.is)(c, k),
            (self.size)((self.times)(m, n)) + (self.size)(k) <= self.bound,
        ensures
            (self.is)(r, (self.plus)((self.times)(m, n), k)),
    {
        reveal(Exact::agrees);
    }

    /// Products added from the left, from product `base` on.
    proof fn tail_exact<A: Arith<T>>(
        self,
        ar: &A,
        x: Seq<T>,
        w: Seq<T>,
        xs: Seq<V>,
        ws: Seq<V>,
        b: V,
        base: nat,
        n: nat,
        init: T,
        r: T,
    )
        requires
            self.adds_freely(),
            self.agrees(ar),
            self.are(x, xs),
            self.are(w, ws),
            base + n <= x.len(),
            x.len() == w.len(),
            (self.is)(init, (self.plus)(b, self.dot(xs, ws, base))),
            (self.size)(b) + self.weight(xs, ws, base + n) <= self.bound,
            crate::arith::folds(crate::lanes::tail_steps(ar, x, w, base as int), n, init, r),
        ensures
            (self.is)(r, (self.plus)(b, self.dot(xs, ws, base + n))),
        decreases n,
    {
        if n > 0 {
            let steps = crate::lanes::tail_steps(ar, x, w, base as int);
            let m = choose|m: T|
                #[trigger] crate::arith::takes(steps, n - 1, m, r) && crate::arith::folds(
                    steps,
                    (n - 1) as nat,
                    init,
                    m,
                );
            let k = (base + n - 1) as nat;
            self.weight_grows(xs, ws, k, base + n);
            self.tail_exact(ar, x, w, xs, ws, b, base, (n - 1) as nat, init, m);
            assert(steps(n - 1, m, r));
            let p = choose|p: T| #[trigger]
                crate::arith::muls(ar, x[k as int], w[k as int], p) && crate::arith::adds(ar, m, p, r);
            let sum = self.dot(xs, ws, k);
            let last = self.product(xs, ws, k as int);
            self.one_more(xs, ws, k);
            self.exact_mul(ar, x[k as int], w[k as int], p, xs[k as int], ws[k as int]);
            self.plus_size(b, sum);
            self.dot_size(xs, ws, k);
            self.exact_add(ar, m, p, r, (self.plus)(b, sum), last);
            self.regroup(b, sum, last);
        }
    }

    proof fn lane_exact<A: Arith<T>>(
        self,
        ar: &A,
        x: Seq<T>,
        w: Seq<T>,
        xs: Seq<V>,
        ws: Seq<V>,
        l: int,
        c: nat,
        zero: T,
        r: T,
    )
        requires
            self.adds_freely(),
            self.agrees(ar),
            self.are(x, xs),
            self.are(w, ws),
            0 <= l < 8,
            c * 8 <= x.len(),
            x.len() == w.len(),
            crate::arith::converts(ar, 0, zero),
            self.lane_weight(xs, ws, l, c) <= self.bound,
            crate::arith::folds(crate::lanes::lane_steps(ar, x, w, l), c, zero, r),
        ensures
            (self.is)(r, self.lane(xs, ws, l, c)),
        decreases c,
    {
        if c == 0 {
            self.exact_zero(ar, zero);
        } else {
            let steps = crate::lanes::lane_steps(ar, x, w, l);
            let b = (c - 1) as nat;
            let m = choose|m: T|
                #[trigger] crate::arith::takes(steps, c - 1, m, r) && crate::arith::folds(
                    steps,
                    b,
                    zero,
                    m,
                );
            self.lane_exact(ar, x, w, xs, ws, l, b, zero, m);
            assert(steps(c - 1, m, r));
            let k = b * 8 + l;
            let sum = self.lane(xs, ws, l, b);
            self.lane_size(xs, ws, l, b);
            self.exact_fuse(ar, x[k], w[k], m, r, xs[k], ws[k], sum);
            self.swap(self.product(xs, ws, k), sum);
        }
    }

    proof fn plus_exact<A: Arith<T>>(
        self,
        ar: &A,
        f: crate::expr::Expr<T>,
        g: crate::expr::Expr<T>,
        m: V,
        n: V,
    )
        requires
            self.agrees(ar),
            forall|r: T| #[trigger] crate::expr::evals(ar, f, r) ==> (self.is)(r, m),
            forall|r: T| #[trigger] crate::expr::evals(ar, g, r) ==> (self.is)(r, n),
            (self.size)(m) + (self.size)(n) <= self.bound,
        ensures
            forall|r: T| #[trigger]
                crate::expr::evals(ar, f.plus(g), r) ==> (self.is)(r, (self.plus)(m, n)),
    {
        assert forall|r: T| #[trigger] crate::expr::evals(ar, f.plus(g), r) implies (self.is)(
            r,
            (self.plus)(m, n),
        ) by {
            let (a, b) = choose|a: T, b: T|
                crate::expr::evals(ar, f, a) && crate::expr::evals(ar, g, b)
                    && #[trigger] crate::expr::combines(ar, crate::expr::Op::Add, a, b, r);
            self.exact_add(ar, a, b, r, m, n);
        }
    }

    proof fn value_exact<A: Arith<T>>(self, ar: &A, a: T, m: V)
        requires
            (self.is)(a, m),
        ensures
            forall|r: T| #[trigger]
                crate::expr::evals(ar, crate::expr::Expr::Value(a), r) ==> (self.is)(r, m),
    {
    }

    proof fn tree_exact<A: Arith<T>>(
        self,
        ar: &A,
        lanes: Seq<T>,
        v: spec_fn(int) -> V,
        sum: T,
    )
        requires
            self.adds_freely(),
            self.agrees(ar),
            lanes.len() == 8,
            forall|l: int| 0 <= l < 8 ==> (self.is)(#[trigger] lanes[l], v(l)),
            (self.size)(v(0)) + (self.size)(v(1)) + (self.size)(v(2)) + (self.size)(v(3)) + (
            self.size)(v(4)) + (self.size)(v(5)) + (self.size)(v(6)) + (self.size)(v(7))
                <= self.bound,
            crate::expr::evals(ar, crate::lanes::lane_sum(lanes), sum),
        ensures
            (self.is)(sum, self.tree(v)),
    {
        let p = self.plus;
        let e = |i: int| crate::expr::Expr::Value(lanes[i]);
        self.value_exact(ar, lanes[0], v(0));
        self.value_exact(ar, lanes[1], v(1));
        self.value_exact(ar, lanes[2], v(2));
        self.value_exact(ar, lanes[3], v(3));
        self.value_exact(ar, lanes[4], v(4));
        self.value_exact(ar, lanes[5], v(5));
        self.value_exact(ar, lanes[6], v(6));
        self.value_exact(ar, lanes[7], v(7));
        let pair = |i: int| e(i + 4).plus(e(i));
        self.plus_exact(ar, e(4), e(0), v(4), v(0));
        self.plus_exact(ar, e(5), e(1), v(5), v(1));
        self.plus_exact(ar, e(6), e(2), v(6), v(2));
        self.plus_exact(ar, e(7), e(3), v(7), v(3));
        self.plus_size(v(4), v(0));
        self.plus_size(v(5), v(1));
        self.plus_size(v(6), v(2));
        self.plus_size(v(7), v(3));
        let (a, b, c, d) = (p(v(4), v(0)), p(v(5), v(1)), p(v(6), v(2)), p(v(7), v(3)));
        self.plus_exact(ar, pair(0), pair(1), a, b);
        self.plus_exact(ar, pair(2), pair(3), c, d);
        self.plus_size(a, b);
        self.plus_size(c, d);
        self.plus_exact(ar, pair(0).plus(pair(1)), pair(2).plus(pair(3)), p(a, b), p(c, d));
        assert(crate::lanes::lane_sum(lanes) == pair(0).plus(pair(1)).plus(
            pair(2).plus(pair(3)),
        ));
    }

    /// The dot product in eight lanes is the exact one.
    proof fn lane_dot_exact<A: Arith<T>>(
        self,
        ar: &A,
        x: Seq<T>,
        w: Seq<T>,
        xs: Seq<V>,
        ws: Seq<V>,
        v: T,
    )
        requires
            self.adds_freely(),
            self.agrees(ar),
            self.are(x, xs),
            self.are(w, ws),
            x.len() == w.len(),
            self.weight(xs, ws, x.len()) <= self.bound,
            crate::lanes::is_lane_dot(ar, x, w, v),
        ensures
            (self.is)(v, self.dot(xs, ws, x.len())),
    {
        let s = choose|s: crate::lanes::LaneSteps<T>| #[trigger]
            crate::lanes::lane_dot_by(ar, x, w, s, v);
        let n = x.len();
        let c = n / 8;
        self.weight_grows(xs, ws, c * 8, n);
        self.lanes_weigh(xs, ws, c);
        let lane = |l: int| self.lane(xs, ws, l, c);
        assert forall|l: int| 0 <= l < 8 implies (self.is)(#[trigger] s.lanes[l], lane(l)) by {
            self.lane_exact(ar, x, w, xs, ws, l, c, s.zero, s.lanes[l]);
        }
        self.lane_size(xs, ws, 0, c);
        self.lane_size(xs, ws, 1, c);
        self.lane_size(xs, ws, 2, c);
        self.lane_size(xs, ws, 3, c);
        self.lane_size(xs, ws, 4, c);
        self.lane_size(xs, ws, 5, c);
        self.lane_size(xs, ws, 6, c);
        self.lane_size(xs, ws, 7, c);
        self.tree_exact(ar, s.lanes, lane, s.sum);
        self.lanes_sum(xs, ws, c);
        self.neutral(self.dot(xs, ws, c * 8));
        self.neutral(self.dot(xs, ws, n));
        self.tail_exact(ar, x, w, xs, ws, self.zero, c * 8, n % 8, s.sum, v);
    }

    /// The dot product from the left is the exact one.
    proof fn dot_exact<A: Arith<T>>(
        self,
        ar: &A,
        x: Seq<T>,
        w: Seq<T>,
        xs: Seq<V>,
        ws: Seq<V>,
        b: V,
        init: T,
        r: T,
    )
        requires
            self.adds_freely(),
            self.agrees(ar),
            self.are(x, xs),
            self.are(w, ws),
            x.len() == w.len(),
            (self.is)(init, b),
            (self.size)(b) + self.weight(xs, ws, x.len()) <= self.bound,
            crate::arith::dots(ar, init, x, w, r),
        ensures
            (self.is)(r, (self.plus)(b, self.dot(xs, ws, x.len()))),
    {
        crate::arith::folds_weaken(
            crate::arith::dot_steps(ar, x, w),
            crate::lanes::tail_steps(ar, x, w, 0),
            x.len(),
            init,
            r,
        );
        self.neutral(b);
        self.tail_exact(ar, x, w, xs, ws, b, 0, x.len(), init, r);
    }
}

/// Both projections are exact: where the bias and the products of a cell are
/// together not larger than the bound up to which the operations are exact, both
/// the projection in eight lanes and the plain one give the exact value of the
/// cell, whatever the numbers of rows, outputs and inputs are.
pub proof fn projections_are_exact<T, V, A: Arith<T>>(
    ar: &A,
    e: Exact<T, V>,
    x: Seq<T>,
    w: Seq<T>,
    bias: Option<Seq<T>>,
    xs: Seq<V>,
    ws: Seq<V>,
    bs: Seq<V>,
    n: int,
    rows: int,
    outs: int,
    in_lanes: Seq<T>,
    plain: Seq<T>,
    i: int,
)
    requires
        e.adds_freely(),
        e.agrees(ar),
        e.are(x, xs),
        e.are(w, ws),
        e.starts(bias, bs),
        0 <= n,
        0 < outs,
        x.len() == rows * n,
        w.len() == outs * n,
        bs.len() == outs,
        in_lanes.len() == rows * outs,
        plain.len() == rows * outs,
        crate::lanes::is_lane_linear(ar, x, w, bias, n, rows, outs, in_lanes),
        crate::linear::is_linear(ar, x, w, bias, n, outs, plain),
        0 <= i < rows * outs,
        e.cell_fits(xs, ws, bs, n, outs, i),
    ensures
        (e.is)(in_lanes[i], e.cell(xs, ws, bs, n, outs, i)),
        (e.is)(plain[i], e.cell(xs, ws, bs, n, outs, i)),
{
    let z1 = choose|zero: T| #[trigger]
        crate::arith::converts(ar, 0, zero) && forall|i: int|
            0 <= i < in_lanes.len() ==> crate::lanes::lane_linear_cell(
                ar,
                zero,
                x,
                w,
                bias,
                n,
                rows,
                outs,
                i / outs,
                i % outs,
                #[trigger] in_lanes[i],
            );
    let z2 = choose|zero: T| #[trigger]
        crate::arith::converts(ar, 0, zero) && forall|i: int|
            0 <= i < plain.len() ==> crate::linear::linear_cell(
                ar,
                zero,
                x,
                w,
                bias,
                n,
                i / outs,
                i % outs,
                #[trigger] plain[i],
            );
    e.lane_cell_exact(ar, z1, x, w, bias, xs, ws, bs, n, rows, outs, i, in_lanes[i]);
    e.plain_cell_exact(ar, z2, x, w, bias, xs, ws, bs, n, rows, outs, i, plain[i]);
}

/// Whole numbers as exact values: `is` says which scalar is which number.
pub open spec fn whole_numbers<T>(is: spec_fn(T, int) -> bool, bound: nat) -> Exact<T, int> {
    Exact {
        is,
        plus: |a: int, b: int| a + b,
        times: |a: int, b: int| a * b,
        zero: 0,
        size: |a: int|
            if a < 0 {
                (-a) as nat
            } else {
                a as nat
            },
        bound,
    }
}

/// `x[0] * w[0] + x[1] * w[1] + ...`, of the first `n` numbers.
pub open spec fn whole_dot(x: Seq<int>, w: Seq<int>, n: nat) -> int
    decreases n,
{
    if n == 0 {
        0
    } else {
        whole_dot(x, w, (n - 1) as nat) + x[n - 1] * w[n - 1]
    }
}

proof fn whole_dot_is_dot<T>(is: spec_fn(T, int) -> bool, bound: nat, x: Seq<int>, w: Seq<int>, n: nat)
    ensures
        whole_numbers(is, bound).dot(x, w, n) == whole_dot(x, w, n),
    decreases n,
{
    if n > 0 {
        whole_dot_is_dot(is, bound, x, w, (n - 1) as nat);
    }
}

/// On whole numbers that are small enough for every operation to be exact, the
/// projection in eight lanes and the plain one give the same numbers: the bias
/// plus the sum of the products.
pub proof fn lanes_agree_on_whole_numbers<T, A: Arith<T>>(
    ar: &A,
    is: spec_fn(T, int) -> bool,
    bound: nat,
    x: Seq<T>,
    w: Seq<T>,
    bias: Option<Seq<T>>,
    xs: Seq<int>,
    ws: Seq<int>,
    bs: Seq<int>,
    n: int,
    rows: int,
    outs: int,
    in_lanes: Seq<T>,
    plain: Seq<T>,
    i: int,
)
    requires
        whole_numbers(is, bound).agrees(ar),
        whole_numbers(is, bound).are(x, xs),
        whole_numbers(is, bound).are(w, ws),
        whole_numbers(is, bound).starts(bias, bs),
        0 <= n,
        0 < outs,
        x.len() == rows * n,
        w.len() == outs * n,
        bs.len() == outs,
        in_lanes.len() == rows * outs,
        plain.len() == rows * outs,
        crate::lanes::is_lane_linear(ar, x, w, bias, n, rows, outs, in_lanes),
        crate::linear::is_linear(ar, x, w, bias, n, outs, plain),
        0 <= i < rows * outs,
        whole_numbers(is, bound).cell_fits(xs, ws, bs, n, outs, i),
    ensures
        ({
            let v = bs[i % outs] + whole_dot(
                crate::linear::row(xs, n, i / outs),
                crate::linear::row(ws, n, i % outs),
                n as nat,
            );
            is(in_lanes[i], v) && is(plain[i], v)
        }),
{
    let e = whole_numbers(is, bound);
    assert(e.adds_freely()) by {
        reveal(Exact::adds_freely);
    }
    projections_are_exact(
        ar,
        e,
        x,
        w,
        bias,
        xs,
        ws,
        bs,
        n,
        rows,
        outs,
        in_lanes,
        plain,
        i,
    );
    whole_dot_is_dot(
        is,
        bound,
        crate::linear::row(xs, n, i / outs),
        crate::linear::row(ws, n, i % outs),
        n as nat,
    );
}

/// The operations are these functions, and the fused operation is a product and
/// a sum.
pub open spec fn operates<T, A: Arith<T>>(
    ar: &A,
    plus: spec_fn(T, T) -> T,
    times: spec_fn(T, T) -> T,
    zero: T,
) -> bool {
    &&& forall|r: T| #[trigger] crate::arith::converts(ar, 0, r) <==> r == zero
    &&& forall|a: T, b: T, r: T| #[trigger] crate::arith::adds(ar, a, b, r) <==> r == plus(a, b)
    &&& forall|a: T, b: T, r: T| #[trigger] crate::arith::muls(ar, a, b, r) <==> r == times(a, b)
    &&& forall|a: T, b: T, c: T, r: T| #[trigger]
        crate::arith::fuses(ar, a, b, c, r) <==> r == plus(times(a, b), c)
}

/// Addition is associative and commutative, and zero is its neutral element.
#[verifier::opaque]
pub open spec fn is_free_addition<T>(plus: spec_fn(T, T) -> T, zero: T) -> bool {
    &&& forall|a: T, b: T, c: T| #[trigger] plus(plus(a, b), c) == plus(a, plus(b, c))
    &&& forall|a: T, b: T| #[trigger] plus(a, b) == plus(b, a)
    &&& forall|a: T| #[trigger] plus(zero, a) == a
}

/// Every scalar as its own value, exact without a bound.
spec fn themselves<T>(plus: spec_fn(T, T) -> T, times: spec_fn(T, T) -> T, zero: T) -> Exact<T, T> {
    Exact { is: |a: T, b: T| a == b, plus, times, zero, size: |a: T| 0, bound: 0 }
}

proof fn themselves_are_exact<T, A: Arith<T>>(
    ar: &A,
    plus: spec_fn(T, T) -> T,
    times: spec_fn(T, T) -> T,
    zero: T,
)
    requires
        operates(ar, plus, times, zero),
        is_free_addition(plus, zero),
    ensures
        themselves(plus, times, zero).adds_freely(),
        themselves(plus, times, zero).agrees(ar),
{
    let e = themselves(plus, times, zero);
    assert(e.adds_freely()) by {
        reveal(Exact::adds_freely);
        reveal(is_free_addition);
    }
    assert(e.agrees(ar)) by {
        reveal(Exact::agrees);
    }
}

proof fn weightless<T>(
    plus: spec_fn(T, T) -> T,
    times: spec_fn(T, T) -> T,
    zero: T,
    x: Seq<T>,
    w: Seq<T>,
    n: nat,
)
    ensures
        themselves(plus, times, zero).weight(x, w, n) == 0,
    decreases n,
{
    if n > 0 {
        weightless(plus, times, zero, x, w, (n - 1) as nat);
    }
}

proof fn some_tail<T, A: Arith<T>>(
    ar: &A,
    plus: spec_fn(T, T) -> T,
    times: spec_fn(T, T) -> T,
    zero: T,
    x: Seq<T>,
    w: Seq<T>,
    base: int,
    n: nat,
    init: T,
) -> (r: T)
    requires
        operates(ar, plus, times, zero),
    ensures
        crate::arith::folds(crate::lanes::tail_steps(ar, x, w, base), n, init, r),
    decreases n,
{
    if n == 0 {
        init
    } else {
        let m = some_tail(ar, plus, times, zero, x, w, base, (n - 1) as nat, init);
        let k = base + n - 1;
        let p = times(x[k], w[k]);
        let r = plus(m, p);
        assert(crate::arith::muls(ar, x[k], w[k], p));
        assert(crate::arith::adds(ar, m, p, r));
        crate::arith::fold_step(
            crate::lanes::tail_steps(ar, x, w, base),
            (n - 1) as nat,
            init,
            m,
            r,
        );
        r
    }
}

proof fn some_lane<T, A: Arith<T>>(
    ar: &A,
    plus: spec_fn(T, T) -> T,
    times: spec_fn(T, T) -> T,
    zero: T,
    x: Seq<T>,
    w: Seq<T>,
    l: int,
    c: nat,
) -> (r: T)
    requires
        operates(ar, plus, times, zero),
    ensures
        crate::arith::folds(crate::lanes::lane_steps(ar, x, w, l), c, zero, r),
    decreases c,
{
    if c == 0 {
        zero
    } else {
        let m = some_lane(ar, plus, times, zero, x, w, l, (c - 1) as nat);
        let k = (c - 1) * 8 + l;
        let r = plus(times(x[k], w[k]), m);
        assert(crate::arith::fuses(ar, x[k], w[k], m, r));
        crate::arith::fold_step(
            crate::lanes::lane_steps(ar, x, w, l),
            (c - 1) as nat,
            zero,
            m,
            r,
        );
        r
    }
}

proof fn sum_evals<T, A: Arith<T>>(
    ar: &A,
    f: crate::expr::Expr<T>,
    g: crate::expr::Expr<T>,
    a: T,
    b: T,
    r: T,
)
    requires
        crate::expr::evals(ar, f, a),
        crate::expr::evals(ar, g, b),
        crate::arith::adds(ar, a, b, r),
    ensures
        crate::expr::evals(ar, f.plus(g), r),
{
    assert(crate::expr::combines(ar, crate::expr::Op::Add, a, b, r));
}

proof fn some_lane_dot<T, A: Arith<T>>(
    ar: &A,
    plus: spec_fn(T, T) -> T,
    times: spec_fn(T, T) -> T,
    zero: T,
    x: Seq<T>,
    w: Seq<T>,
) -> (v: T)
    requires
        operates(ar, plus, times, zero),
    ensures
        crate::lanes::is_lane_dot(ar, x, w, v),
{
    let n = x.len() as int;
    let c = (n / 8) as nat;
    let l0 = some_lane(ar, plus, times, zero, x, w, 0, c);
    let l1 = some_lane(ar, plus, times, zero, x, w, 1, c);
    let l2 = some_lane(ar, plus, times, zero, x, w, 2, c);
    let l3 = some_lane(ar, plus, times, zero, x, w, 3, c);
    let l4 = some_lane(ar, plus, times, zero, x, w, 4, c);
    let l5 = some_lane(ar, plus, times, zero, x, w, 5, c);
    let l6 = some_lane(ar, plus, times, zero, x, w, 6, c);
    let l7 = some_lane(ar, plus, times, zero, x, w, 7, c);
    let lanes = seq![l0, l1, l2, l3, l4, l5, l6, l7];
    let e = |i: int| crate::expr::Expr::Value(lanes[i]);
    let pair = |i: int| e(i + 4).plus(e(i));
    let (p0, p1, p2, p3) = (plus(l4, l0), plus(l5, l1), plus(l6, l2), plus(l7, l3));
    sum_evals(ar, e(4), e(0), l4, l0, p0);
    sum_evals(ar, e(5), e(1), l5, l1, p1);
    sum_evals(ar, e(6), e(2), l6, l2, p2);
    sum_evals(ar, e(7), e(3), l7, l3, p3);
    sum_evals(ar, pair(0), pair(1), p0, p1, plus(p0, p1));
    sum_evals(ar, pair(2), pair(3), p2, p3, plus(p2, p3));
    let sum = plus(plus(p0, p1), plus(p2, p3));
    sum_evals(
        ar,
        pair(0).plus(pair(1)),
        pair(2).plus(pair(3)),
        plus(p0, p1),
        plus(p2, p3),
        sum,
    );
    assert(crate::lanes::lane_sum(lanes) == pair(0).plus(pair(1)).plus(pair(2).plus(pair(3))));
    let v = some_tail(ar, plus, times, zero, x, w, n / 8 * 8, (n % 8) as nat, sum);
    let s = crate::lanes::LaneSteps { zero, lanes, sum };
    assert forall|l: int| 0 <= l < 8 implies crate::arith::folds(
        crate::lanes::lane_steps(ar, x, w, l),
        c,
        zero,
        #[trigger] s.lanes[l],
    ) by {}
    assert(crate::lanes::lane_dot_by(ar, x, w, s, v));
    v
}

/// What every output starts from.
spec fn start_values<T>(zero: T, bias: Option<Seq<T>>, outs: int) -> Seq<T> {
    match bias {
        Some(b) => b,
        None => Seq::new(outs as nat, |o: int| zero),
    }
}

/// Where addition is associative and commutative with zero as its neutral
/// element, and the fused operation is a product and a sum, a result of the
/// projection in eight lanes is a result of the plain one, and the other way
/// round.
pub proof fn lanes_are_plain_where_addition_is_free<T, A: Arith<T>>(
    ar: &A,
    plus: spec_fn(T, T) -> T,
    times: spec_fn(T, T) -> T,
    zero: T,
    x: Seq<T>,
    w: Seq<T>,
    bias: Option<Seq<T>>,
    n: int,
    rows: int,
    outs: int,
    out: Seq<T>,
)
    requires
        operates(ar, plus, times, zero),
        is_free_addition(plus, zero),
        0 <= n,
        0 < outs,
        x.len() == rows * n,
        w.len() == outs * n,
        bias matches Some(b) ==> b.len() == outs,
        out.len() == rows * outs,
    ensures
        crate::lanes::is_lane_linear(ar, x, w, bias, n, rows, outs, out)
            <==> crate::linear::is_linear(ar, x, w, bias, n, outs, out),
{
    let e = themselves(plus, times, zero);
    let bs = start_values(zero, bias, outs);
    themselves_are_exact(ar, plus, times, zero);
    assert(crate::arith::converts(ar, 0, zero));
    assert forall|i: int| 0 <= i < out.len() implies (#[trigger] crate::lanes::lane_linear_cell(
        ar,
        zero,
        x,
        w,
        bias,
        n,
        rows,
        outs,
        i / outs,
        i % outs,
        out[i],
    ) <==> crate::linear::linear_cell(ar, zero, x, w, bias, n, i / outs, i % outs, out[i])) by {
        crate::grid::index_row(i, rows, outs);
        let (r, o) = (i / outs, i % outs);
        let (a, b) = (crate::linear::row(x, n, r), crate::linear::row(w, n, o));
        let init = crate::linear::start(zero, bias, o);
        weightless(plus, times, zero, a, b, n as nat);
        crate::grid::row_bound(r, rows, n);
        crate::grid::row_bound(o, outs, n);
        let p = some_tail(ar, plus, times, zero, a, b, 0, n as nat, init);
        crate::arith::folds_weaken(
            crate::lanes::tail_steps(ar, a, b, 0),
            crate::arith::dot_steps(ar, a, b),
            n as nat,
            init,
            p,
        );
        e.plain_cell_exact(ar, zero, x, w, bias, x, w, bs, n, rows, outs, i, p);
        if crate::lanes::in_tiles(rows, outs, r, o) {
            let d = some_lane_dot(ar, plus, times, zero, a, b);
            let v = plus(d, init);
            assert(crate::lanes::lane_linear_cell(
                ar,
                zero,
                x,
                w,
                bias,
                n,
                rows,
                outs,
                r,
                o,
                v,
            ));
            e.lane_cell_exact(ar, zero, x, w, bias, x, w, bs, n, rows, outs, i, v);
            if crate::lanes::lane_linear_cell(ar, zero, x, w, bias, n, rows, outs, r, o, out[i]) {
                e.lane_cell_exact(ar, zero, x, w, bias, x, w, bs, n, rows, outs, i, out[i]);
            }
            if crate::linear::linear_cell(ar, zero, x, w, bias, n, r, o, out[i]) {
                e.plain_cell_exact(ar, zero, x, w, bias, x, w, bs, n, rows, outs, i, out[i]);
            }
        }
    }
    if crate::lanes::is_lane_linear(ar, x, w, bias, n, rows, outs, out) {
        assert forall|i: int| 0 <= i < out.len() implies crate::linear::linear_cell(
            ar,
            zero,
            x,
            w,
            bias,
            n,
            i / outs,
            i % outs,
            #[trigger] out[i],
        ) by {
            assert(crate::lanes::lane_linear_cell(
                ar,
                zero,
                x,
                w,
                bias,
                n,
                rows,
                outs,
                i / outs,
                i % outs,
                out[i],
            ));
        }
    }
    if crate::linear::is_linear(ar, x, w, bias, n, outs, out) {
        assert forall|i: int| 0 <= i < out.len() implies crate::lanes::lane_linear_cell(
            ar,
            zero,
            x,
            w,
            bias,
            n,
            rows,
            outs,
            i / outs,
            i % outs,
            #[trigger] out[i],
        ) by {
            assert(crate::linear::linear_cell(
                ar,
                zero,
                x,
                w,
                bias,
                n,
                i / outs,
                i % outs,
                out[i],
            ));
        }
    }
}

} // verus!
