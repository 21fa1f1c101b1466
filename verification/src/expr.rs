use vstd::prelude::*;

use crate::arith::Arith;

verus! {

/// An operation on two scalars.
pub enum Op {
    Add,
    Sub,
    Mul,
    Div,
    Pow,
}

/// An operation on one scalar.
pub enum Fun {
    Neg,
    Exp,
    Sqrt,
    Tanh,
    Abs,
    Sin,
    Cos,
}

/// A formula over scalars.
pub enum Expr<T> {
    Value(T),
    Int(i64),
    Size(usize),
    Bits(u32),
    Unary(Fun, Box<Expr<T>>),
    Binary(Op, Box<Expr<T>>, Box<Expr<T>>),
}

/// `r` may be what an operation on two scalars gives.
pub open spec fn combines<T, A: Arith<T>>(ar: &A, op: Op, a: T, b: T, r: T) -> bool {
    match op {
        Op::Add => crate::arith::adds(ar, a, b, r),
        Op::Sub => crate::arith::subs(ar, a, b, r),
        Op::Mul => crate::arith::muls(ar, a, b, r),
        Op::Div => crate::arith::divs(ar, a, b, r),
        Op::Pow => crate::arith::powers(ar, a, b, r),
    }
}

/// `r` may be what an operation on one scalar gives.
pub open spec fn maps<T, A: Arith<T>>(ar: &A, f: Fun, a: T, r: T) -> bool {
    match f {
        Fun::Neg => crate::arith::negs(ar, a, r),
        Fun::Exp => crate::arith::exps(ar, a, r),
        Fun::Sqrt => crate::arith::sqrts(ar, a, r),
        Fun::Tanh => crate::arith::tanhs(ar, a, r),
        Fun::Abs => crate::arith::magnitudes(ar, a, r),
        Fun::Sin => crate::arith::sines(ar, a, r),
        Fun::Cos => crate::arith::cosines(ar, a, r),
    }
}

/// `r` may be the value of a formula.
pub open spec fn evals<T, A: Arith<T>>(ar: &A, e: Expr<T>, r: T) -> bool
    decreases e,
{
    match e {
        Expr::Value(v) => r == v,
        Expr::Int(n) => crate::arith::converts(ar, n, r),
        Expr::Size(n) => crate::arith::sizes(ar, n, r),
        Expr::Bits(b) => crate::arith::decodes(ar, b, r),
        Expr::Unary(f, x) => exists|a: T| evals(ar, *x, a) && #[trigger] maps(ar, f, a, r),
        Expr::Binary(op, x, y) => exists|a: T, b: T|
            evals(ar, *x, a) && evals(ar, *y, b) && #[trigger] combines(ar, op, a, b, r),
    }
}

impl<T> Expr<T> {
    /// `self + o`
    pub open spec fn plus(self, o: Self) -> Self {
        Expr::Binary(Op::Add, Box::new(self), Box::new(o))
    }

    /// `self - o`
    pub open spec fn minus(self, o: Self) -> Self {
        Expr::Binary(Op::Sub, Box::new(self), Box::new(o))
    }

    /// `self * o`
    pub open spec fn times(self, o: Self) -> Self {
        Expr::Binary(Op::Mul, Box::new(self), Box::new(o))
    }

    /// `self / o`
    pub open spec fn over(self, o: Self) -> Self {
        Expr::Binary(Op::Div, Box::new(self), Box::new(o))
    }

    /// `self` to the power of `o`
    pub open spec fn to_the(self, o: Self) -> Self {
        Expr::Binary(Op::Pow, Box::new(self), Box::new(o))
    }

    /// `-self`
    pub open spec fn negated(self) -> Self {
        Expr::Unary(Fun::Neg, Box::new(self))
    }

    /// `e` to the power of `self`
    pub open spec fn exponential(self) -> Self {
        Expr::Unary(Fun::Exp, Box::new(self))
    }

    /// The square root of `self`
    pub open spec fn root(self) -> Self {
        Expr::Unary(Fun::Sqrt, Box::new(self))
    }

    /// The hyperbolic tangent of `self`
    pub open spec fn tangent(self) -> Self {
        Expr::Unary(Fun::Tanh, Box::new(self))
    }

    /// The magnitude of `self`
    pub open spec fn magnitude(self) -> Self {
        Expr::Unary(Fun::Abs, Box::new(self))
    }

    /// The sine of `self`
    pub open spec fn sine(self) -> Self {
        Expr::Unary(Fun::Sin, Box::new(self))
    }

    /// The cosine of `self`
    pub open spec fn cosine(self) -> Self {
        Expr::Unary(Fun::Cos, Box::new(self))
    }
}

/// A formula has one value, if the arithmetic always gives the same result.
pub proof fn evals_unique<T, A: Arith<T>>(ar: &A, e: Expr<T>, r1: T, r2: T)
    requires
        crate::arith::deterministic(ar),
        evals(ar, e, r1),
        evals(ar, e, r2),
    ensures
        r1 == r2,
    decreases e,
{
    match e {
        Expr::Unary(f, x) => {
            let a1 = choose|a: T| evals(ar, *x, a) && #[trigger] maps(ar, f, a, r1);
            let a2 = choose|a: T| evals(ar, *x, a) && #[trigger] maps(ar, f, a, r2);
            evals_unique(ar, *x, a1, a2);
        },
        Expr::Binary(op, x, y) => {
            let (a1, b1) = choose|a: T, b: T|
                evals(ar, *x, a) && evals(ar, *y, b) && #[trigger] combines(ar, op, a, b, r1);
            let (a2, b2) = choose|a: T, b: T|
                evals(ar, *x, a) && evals(ar, *y, b) && #[trigger] combines(ar, op, a, b, r2);
            evals_unique(ar, *x, a1, a2);
            evals_unique(ar, *y, b1, b2);
        },
        _ => {},
    }
}

/// A scalar, and the formula that it is a value of.
pub struct Term<T> {
    pub value: T,
    pub expr: Ghost<Expr<T>>,
}

impl<T: Copy> Term<T> {
    /// The scalar is a value of the formula.
    pub open spec fn holds<A: Arith<T>>(self, ar: &A) -> bool {
        evals(ar, self.expr@, self.value)
    }

    /// A given scalar.
    pub fn of<A: Arith<T>>(ar: &A, value: T) -> (r: Self)
        ensures
            r.holds(ar),
            r.expr@ == Expr::Value(value),
            r.value == value,
    {
        Term { value, expr: Ghost(Expr::Value(value)) }
    }

    /// The scalar of an integer.
    pub fn whole<A: Arith<T>>(ar: &A, n: i64) -> (r: Self)
        ensures
            r.holds(ar),
            r.expr@ == Expr::<T>::Int(n),
    {
        let value: T = ar.from_int(n);
        Term { value, expr: Ghost(Expr::Int(n)) }
    }

    /// The scalar of a size.
    pub fn size<A: Arith<T>>(ar: &A, n: usize) -> (r: Self)
        ensures
            r.holds(ar),
            r.expr@ == Expr::<T>::Size(n),
    {
        let value: T = ar.from_size(n);
        Term { value, expr: Ghost(Expr::Size(n)) }
    }

    /// The scalar with a bit pattern.
    pub fn bits<A: Arith<T>>(ar: &A, b: u32) -> (r: Self)
        ensures
            r.holds(ar),
            r.expr@ == Expr::<T>::Bits(b),
    {
        let value: T = ar.from_bits(b);
        Term { value, expr: Ghost(Expr::Bits(b)) }
    }

    /// `self + o`
    pub fn plus<A: Arith<T>>(&self, ar: &A, o: &Self) -> (r: Self)
        requires
            self.holds(ar),
            o.holds(ar),
        ensures
            r.holds(ar),
            r.expr@ == self.expr@.plus(o.expr@),
    {
        let value: T = ar.add(self.value, o.value);
        assert(combines(ar, Op::Add, self.value, o.value, value));
        Term { value, expr: Ghost(self.expr@.plus(o.expr@)) }
    }

    /// `self - o`
    pub fn minus<A: Arith<T>>(&self, ar: &A, o: &Self) -> (r: Self)
        requires
            self.holds(ar),
            o.holds(ar),
        ensures
            r.holds(ar),
            r.expr@ == self.expr@.minus(o.expr@),
    {
        let value: T = ar.sub(self.value, o.value);
        assert(combines(ar, Op::Sub, self.value, o.value, value));
        Term { value, expr: Ghost(self.expr@.minus(o.expr@)) }
    }

    /// `self * o`
    pub fn times<A: Arith<T>>(&self, ar: &A, o: &Self) -> (r: Self)
        requires
            self.holds(ar),
            o.holds(ar),
        ensures
            r.holds(ar),
            r.expr@ == self.expr@.times(o.expr@),
    {
        let value: T = ar.mul(self.value, o.value);
        assert(combines(ar, Op::Mul, self.value, o.value, value));
        Term { value, expr: Ghost(self.expr@.times(o.expr@)) }
    }

    /// `self / o`
    pub fn over<A: Arith<T>>(&self, ar: &A, o: &Self) -> (r: Self)
        requires
            self.holds(ar),
            o.holds(ar),
        ensures
            r.holds(ar),
            r.expr@ == self.expr@.over(o.expr@),
    {
        let value: T = ar.div(self.value, o.value);
        assert(combines(ar, Op::Div, self.value, o.value, value));
        Term { value, expr: Ghost(self.expr@.over(o.expr@)) }
    }

    /// `self` to the power of `o`
    pub fn to_the<A: Arith<T>>(&self, ar: &A, o: &Self) -> (r: Self)
        requires
            self.holds(ar),
            o.holds(ar),
        ensures
            r.holds(ar),
            r.expr@ == self.expr@.to_the(o.expr@),
    {
        let value: T = ar.powf(self.value, o.value);
        assert(combines(ar, Op::Pow, self.value, o.value, value));
        Term { value, expr: Ghost(self.expr@.to_the(o.expr@)) }
    }

    /// `-self`
    pub fn negated<A: Arith<T>>(&self, ar: &A) -> (r: Self)
        requires
            self.holds(ar),
        ensures
            r.holds(ar),
            r.expr@ == self.expr@.negated(),
    {
        let value: T = ar.neg(self.value);
        assert(maps(ar, Fun::Neg, self.value, value));
        Term { value, expr: Ghost(self.expr@.negated()) }
    }

    /// `e` to the power of `self`
    pub fn exponential<A: Arith<T>>(&self, ar: &A) -> (r: Self)
        requires
            self.holds(ar),
        ensures
            r.holds(ar),
            r.expr@ == self.expr@.exponential(),
    {
        let value: T = ar.exp(self.value);
        assert(maps(ar, Fun::Exp, self.value, value));
        Term { value, expr: Ghost(self.expr@.exponential()) }
    }

    /// The square root of `self`
    pub fn root<A: Arith<T>>(&self, ar: &A) -> (r: Self)
        requires
            self.holds(ar),
        ensures
            r.holds(ar),
            r.expr@ == self.expr@.root(),
    {
        let value: T = ar.sqrt(self.value);
        assert(maps(ar, Fun::Sqrt, self.value, value));
        Term { value, expr: Ghost(self.expr@.root()) }
    }

    /// The hyperbolic tangent of `self`
    pub fn tangent<A: Arith<T>>(&self, ar: &A) -> (r: Self)
        requires
            self.holds(ar),
        ensures
            r.holds(ar),
            r.expr@ == self.expr@.tangent(),
    {
        let value: T = ar.tanh(self.value);
        assert(maps(ar, Fun::Tanh, self.value, value));
        Term { value, expr: Ghost(self.expr@.tangent()) }
    }

    /// The magnitude of `self`
    pub fn magnitude<A: Arith<T>>(&self, ar: &A) -> (r: Self)
        requires
            self.holds(ar),
        ensures
            r.holds(ar),
            r.expr@ == self.expr@.magnitude(),
    {
        let value: T = ar.abs(self.value);
        assert(maps(ar, Fun::Abs, self.value, value));
        Term { value, expr: Ghost(self.expr@.magnitude()) }
    }

    /// The sine of `self`
    pub fn sine<A: Arith<T>>(&self, ar: &A) -> (r: Self)
        requires
            self.holds(ar),
        ensures
            r.holds(ar),
            r.expr@ == self.expr@.sine(),
    {
        let value: T = ar.sin(self.value);
        assert(maps(ar, Fun::Sin, self.value, value));
        Term { value, expr: Ghost(self.expr@.sine()) }
    }

    /// The cosine of `self`
    pub fn cosine<A: Arith<T>>(&self, ar: &A) -> (r: Self)
        requires
            self.holds(ar),
        ensures
            r.holds(ar),
            r.expr@ == self.expr@.cosine(),
    {
        let value: T = ar.cos(self.value);
        assert(maps(ar, Fun::Cos, self.value, value));
        Term { value, expr: Ghost(self.expr@.cosine()) }
    }
}

} // verus!
