use vstd::prelude::*;

use crate::arith::Arith;
use crate::error::{KernelError, OcelotlError};
use crate::expr::Term;
use crate::text::Text;

verus! {

/// The refusal of a rotation by a backend.
pub open spec fn rope_refuse_if(c: bool, backend: Seq<char>, message: Seq<char>) -> crate::shapes::Refusal {
    if c {
        Some(crate::error::ErrorView::Kernel { backend, message })
    } else {
        None
    }
}

/// When a rotation is refused by a backend, and how.
pub open spec fn rope_refusal(backend: Seq<char>, len: nat, head_dim: nat) -> crate::shapes::Refusal {
    crate::shapes::first(
        rope_refuse_if(
            head_dim == 0,
            backend,
            "rope_apply_inplace head_dim must be non-zero"@,
        ),
        crate::shapes::first(
            rope_refuse_if(
                head_dim % 2 != 0,
                backend,
                "rope_apply_inplace head_dim must be even, got "@ + crate::text::dec(head_dim),
            ),
            rope_refuse_if(
                len == 0 || len % head_dim != 0,
                backend,
                "rope_apply_inplace x.len()="@ + crate::text::dec(len)
                    + " must be a positive multiple of head_dim="@ + crate::text::dec(head_dim),
            ),
        ),
    )
}

fn rope_err(backend: &str, message: String) -> (e: OcelotlError)
    ensures
        e@ == (crate::error::ErrorView::Kernel { backend: backend@, message: message@ }),
{
    OcelotlError::Kernel(KernelError { backend: String::from_str(backend), message })
}

/// Checks that a row is made of whole heads, and that heads are made of pairs;
/// gives back the pairs of a head.
pub fn validate_rope_shape(backend: &str, len: usize, head_dim: usize) -> (r: Result<
    usize,
    OcelotlError,
>)
    ensures
        crate::shapes::refused(r) == rope_refusal(backend@, len as nat, head_dim as nat),
        r matches Ok(half) ==> half == head_dim / 2,
{
    if head_dim == 0 {
        return Err(
            rope_err(backend, String::from_str("rope_apply_inplace head_dim must be non-zero")),
        );
    }
    if head_dim % 2 != 0 {
        return Err(
            rope_err(
                backend,
                Text::new("rope_apply_inplace head_dim must be even, got ").n(head_dim).done(),
            ),
        );
    }
    if len == 0 || len % head_dim != 0 {
        return Err(
            rope_err(
                backend,
                Text::new("rope_apply_inplace x.len()=").n(len).s(
                    " must be a positive multiple of head_dim=",
                ).n(head_dim).done(),
            ),
        );
    }
    Ok(head_dim / 2)
}

/// The frequency of pair `i`: `theta^(-2 i / head_dim)`.
pub open spec fn rope_frequency<T>(theta: T, head_dim: usize, i: usize) -> crate::expr::Expr<T> {
    crate::expr::Expr::Value(theta).to_the(
        crate::expr::Expr::<T>::Int((-2) as i64).times(crate::expr::Expr::Size(i)).over(
            crate::expr::Expr::Size(head_dim),
        ),
    )
}

/// The angle of pair `i`: `position * theta^(-2 i / head_dim)`.
pub open spec fn rope_angle<T>(theta: T, head_dim: usize, position: usize, i: usize) -> crate::expr::Expr<
    T,
> {
    crate::expr::Expr::<T>::Size(position).times(rope_frequency(theta, head_dim, i))
}

/// The first value of a rotated pair: `lo * cos - hi * sin`.
pub open spec fn rotated_lo<T>(lo: T, hi: T, angle: crate::expr::Expr<T>) -> crate::expr::Expr<T> {
    crate::expr::Expr::Value(lo).times(angle.cosine()).minus(
        crate::expr::Expr::Value(hi).times(angle.sine()),
    )
}

/// The second value of a rotated pair: `lo * sin + hi * cos`.
pub open spec fn rotated_hi<T>(lo: T, hi: T, angle: crate::expr::Expr<T>) -> crate::expr::Expr<T> {
    crate::expr::Expr::Value(lo).times(angle.sine()).plus(
        crate::expr::Expr::Value(hi).times(angle.cosine()),
    )
}

/// `v` may be what comes of value `x`: value `i` of the first half of a head and
/// value `i` of its second half are a pair, and are rotated by the pair's angle.
pub open spec fn rope_cell<T, A: Arith<T>>(
    ar: &A,
    given: Seq<T>,
    head_dim: usize,
    position: usize,
    theta: T,
    x: int,
    v: T,
) -> bool {
    let half = head_dim as int / 2;
    let c = x % head_dim as int;
    if c < half {
        crate::expr::evals(
            ar,
            rotated_lo(
                given[x],
                given[x + half],
                rope_angle(theta, head_dim, position, c as usize),
            ),
            v,
        )
    } else {
        crate::expr::evals(
            ar,
            rotated_hi(
                given[x - half],
                given[x],
                rope_angle(theta, head_dim, position, (c - half) as usize),
            ),
            v,
        )
    }
}

/// The output is the row, with the pairs of every head rotated.
pub open spec fn is_rope<T, A: Arith<T>>(
    ar: &A,
    given: Seq<T>,
    head_dim: usize,
    position: usize,
    theta: T,
    out: Seq<T>,
) -> bool {
    forall|i: int|
        0 <= i < out.len() ==> rope_cell(
            ar,
            given,
            head_dim,
            position,
            theta,
            i,
            #[trigger] out[i],
        )
}

/// Rotary position embedding: rotates the pairs of every head of a row, in
/// place.
pub fn rope_apply_inplace<T: Copy, A: Arith<T>>(
    ar: &A,
    x: &mut [T],
    head_dim: usize,
    position: usize,
    theta: T,
) -> (r: Result<(), OcelotlError>)
    ensures
        final(x)@.len() == old(x)@.len(),
        crate::shapes::refused(r) == rope_refusal("cpu"@, old(x)@.len(), head_dim as nat),
        r is Err ==> final(x)@ == old(x)@,
        r is Ok ==> is_rope(ar, old(x)@, head_dim, position, theta, final(x)@),
{
    let half: usize = match validate_rope_shape("cpu", x.len(), head_dim) {
        Ok(half) => half,
        Err(e) => return Err(e),
    };
    let total: usize = x.len();
    let heads: usize = total / head_dim;
    let ghost given = x@;
    let pos = Term::size(ar, position);
    let width = Term::size(ar, head_dim);
    proof {
        crate::grid::index(total as int, head_dim as int);
    }
    let mut h: usize = 0;
    let mut offset: usize = 0;
    while h < heads
        invariant
            head_dim > 0,
            head_dim == 2 * half,
            total == x@.len() == given.len() == heads * head_dim,
            pos.holds(ar),
            pos.expr@ == crate::expr::Expr::<T>::Size(position),
            width.holds(ar),
            width.expr@ == crate::expr::Expr::<T>::Size(head_dim),
            h <= heads,
            offset == h * head_dim,
            forall|k: int| offset <= k < total ==> #[trigger] x@[k] == given[k],
            forall|k: int|
                0 <= k < offset ==> rope_cell(
                    ar,
                    given,
                    head_dim,
                    position,
                    theta,
                    k,
                    #[trigger] x@[k],
                ),
        decreases heads - h,
    {
        proof {
            crate::grid::row_bound(h as int, heads as int, head_dim as int);
        }
        let mut i: usize = 0;
        while i < half
            invariant
                head_dim > 0,
                head_dim == 2 * half,
                total == x@.len() == given.len(),
                offset == h * head_dim,
                offset + head_dim <= total,
                pos.holds(ar),
                pos.expr@ == crate::expr::Expr::<T>::Size(position),
                width.holds(ar),
                width.expr@ == crate::expr::Expr::<T>::Size(head_dim),
                i <= half,
                forall|k: int|
                    offset + i <= k < offset + half || offset + half + i <= k < total
                        ==> #[trigger] x@[k] == given[k],
                forall|k: int|
                    0 <= k < offset + i || offset + half <= k < offset + half + i ==> rope_cell(
                        ar,
                        given,
                        head_dim,
                        position,
                        theta,
                        k,
                        #[trigger] x@[k],
                    ),
            decreases half - i,
        {
            let power = Term::whole(ar, -2).times(ar, &Term::size(ar, i)).over(ar, &width);
            let angle = pos.times(ar, &Term::of(ar, theta).to_the(ar, &power));
            let c = angle.cosine(ar);
            let s = angle.sine(ar);
            let lo = Term::of(ar, x[offset + i]);
            let hi = Term::of(ar, x[offset + i + half]);
            let new_lo = lo.times(ar, &c).minus(ar, &hi.times(ar, &s));
            let new_hi = lo.times(ar, &s).plus(ar, &hi.times(ar, &c));
            x[offset + i] = new_lo.value;
            x[offset + i + half] = new_hi.value;
            proof {
                crate::grid::cell(h as int, i as int, head_dim as int);
                crate::grid::cell(h as int, (i + half) as int, head_dim as int);
                assert(angle.expr@ == rope_angle(theta, head_dim, position, i));
                assert(rope_cell(
                    ar,
                    given,
                    head_dim,
                    position,
                    theta,
                    offset + i,
                    new_lo.value,
                ));
                assert(rope_cell(
                    ar,
                    given,
                    head_dim,
                    position,
                    theta,
                    offset + i + half,
                    new_hi.value,
                ));
            }
            i = i + 1;
        }
        h = h + 1;
        offset = offset + head_dim;
    }
    Ok(())
}

/// Every head is rotated on its own: head `h` of a rotated row is that head,
/// rotated as a row of its own.
pub proof fn heads_rotate_alone<T, A: Arith<T>>(
    ar: &A,
    given: Seq<T>,
    head_dim: usize,
    position: usize,
    theta: T,
    h: int,
    i: int,
    v: T,
)
    requires
        head_dim > 0,
        head_dim % 2 == 0,
        0 <= h,
        (h + 1) * head_dim <= given.len(),
        0 <= i < head_dim,
    ensures
        rope_cell(ar, given, head_dim, position, theta, h * head_dim + i, v) <==> rope_cell(
            ar,
            given.subrange(h * head_dim, (h + 1) * head_dim),
            head_dim,
            position,
            theta,
            i,
            v,
        ),
{
    crate::grid::cell(h, i, head_dim as int);
    crate::grid::cell(0, i, head_dim as int);
    crate::grid::row_bound(h, h + 1, head_dim as int);
}

/// At position zero nothing turns: its size is `zero`, `zero` times any
/// frequency is `zero`, and `zero` has the cosine `one` and the sine `zero`.
pub open spec fn starts_unturned<T, A: Arith<T>>(
    ar: &A,
    theta: T,
    head_dim: usize,
    zero: T,
    one: T,
) -> bool {
    &&& forall|r: T| #[trigger] crate::arith::sizes(ar, 0, r) ==> r == zero
    &&& forall|i: usize, f: T, r: T|
        #[trigger] crate::expr::evals(ar, rope_frequency(theta, head_dim, i), f)
            && #[trigger] crate::arith::muls(ar, zero, f, r) ==> r == zero
    &&& forall|r: T| #[trigger] crate::arith::cosines(ar, zero, r) ==> r == one
    &&& forall|r: T| #[trigger] crate::arith::sines(ar, zero, r) ==> r == zero
}

/// Neither value of a pair changes when it is multiplied by `one` and the other,
/// multiplied by `zero`, is subtracted or added.
pub open spec fn stays<T, A: Arith<T>>(ar: &A, zero: T, one: T, lo: T, hi: T) -> bool {
    &&& forall|a: T, b: T, r: T|
        crate::arith::muls(ar, lo, one, a) && crate::arith::muls(ar, hi, zero, b)
            && #[trigger] crate::arith::subs(ar, a, b, r) ==> r == lo
    &&& forall|a: T, b: T, r: T|
        crate::arith::muls(ar, lo, zero, a) && crate::arith::muls(ar, hi, one, b)
            && #[trigger] crate::arith::adds(ar, a, b, r) ==> r == hi
}

/// At position zero the rotation is the identity, on pairs that multiplying by
/// one and adding zero times a value leaves as they are.
pub proof fn position_zero_is_the_identity<T, A: Arith<T>>(
    ar: &A,
    given: Seq<T>,
    head_dim: usize,
    theta: T,
    zero: T,
    one: T,
    h: int,
    i: int,
    lo: T,
    hi: T,
)
    requires
        head_dim > 0,
        head_dim % 2 == 0,
        0 <= h,
        (h + 1) * head_dim <= given.len(),
        0 <= i < head_dim / 2,
        starts_unturned(ar, theta, head_dim, zero, one),
        stays(
            ar,
            zero,
            one,
            given[h * head_dim + i],
            given[h * head_dim + i + head_dim / 2],
        ),
        rope_cell(ar, given, head_dim, 0, theta, h * head_dim + i, lo),
        rope_cell(ar, given, head_dim, 0, theta, h * head_dim + i + head_dim / 2, hi),
    ensures
        lo == given[h * head_dim + i],
        hi == given[h * head_dim + i + head_dim / 2],
{
    let half = head_dim / 2;
    crate::grid::cell(h, i, head_dim as int);
    crate::grid::cell(h, i + half, head_dim as int);
    let a = rope_angle(theta, head_dim, 0, i as usize);
    assert forall|r: T| #[trigger] crate::expr::evals(ar, a, r) implies r == zero by {
        let (p, f) = choose|p: T, f: T|
            crate::expr::evals(ar, crate::expr::Expr::<T>::Size(0), p) && crate::expr::evals(
                ar,
                rope_frequency(theta, head_dim, i as usize),
                f,
            ) && #[trigger] crate::expr::combines(ar, crate::expr::Op::Mul, p, f, r);
        assert(crate::arith::sizes(ar, 0, p));
        assert(crate::arith::muls(ar, zero, f, r));
    }
    assert forall|r: T| #[trigger] crate::expr::evals(ar, a.cosine(), r) implies r == one by {
        let b = choose|b: T|
            crate::expr::evals(ar, a, b) && #[trigger] crate::expr::maps(
                ar,
                crate::expr::Fun::Cos,
                b,
                r,
            );
        assert(crate::arith::cosines(ar, zero, r));
    }
    assert forall|r: T| #[trigger] crate::expr::evals(ar, a.sine(), r) implies r == zero by {
        let b = choose|b: T|
            crate::expr::evals(ar, a, b) && #[trigger] crate::expr::maps(
                ar,
                crate::expr::Fun::Sin,
                b,
                r,
            );
        assert(crate::arith::sines(ar, zero, r));
    }
    let (x, y) = (given[h * head_dim + i], given[h * head_dim + i + half]);
    product_of(ar, x, a.cosine(), one);
    product_of(ar, y, a.cosine(), one);
    product_of(ar, x, a.sine(), zero);
    product_of(ar, y, a.sine(), zero);
    let (p, q) = choose|p: T, q: T|
        crate::expr::evals(ar, crate::expr::Expr::Value(x).times(a.cosine()), p)
            && crate::expr::evals(ar, crate::expr::Expr::Value(y).times(a.sine()), q)
            && #[trigger] crate::expr::combines(ar, crate::expr::Op::Sub, p, q, lo);
    assert(crate::arith::subs(ar, p, q, lo));
    let (p, q) = choose|p: T, q: T|
        crate::expr::evals(ar, crate::expr::Expr::Value(x).times(a.sine()), p)
            && crate::expr::evals(ar, crate::expr::Expr::Value(y).times(a.cosine()), q)
            && #[trigger] crate::expr::combines(ar, crate::expr::Op::Add, p, q, hi);
    assert(crate::arith::adds(ar, p, q, hi));
}

/// The product of a value and a formula of one value is the product of both.
proof fn product_of<T, A: Arith<T>>(ar: &A, x: T, e: crate::expr::Expr<T>, v: T)
    requires
        forall|r: T| #[trigger] crate::expr::evals(ar, e, r) ==> r == v,
    ensures
        forall|r: T| #[trigger]
            crate::expr::evals(ar, crate::expr::Expr::Value(x).times(e), r) ==> crate::arith::muls(
                ar,
                x,
                v,
                r,
            ),
{
    assert forall|r: T| #[trigger]
        crate::expr::evals(ar, crate::expr::Expr::Value(x).times(e), r) implies crate::arith::muls(
        ar,
        x,
        v,
        r,
    ) by {
        let (a, b) = choose|a: T, b: T|
            crate::expr::evals(ar, crate::expr::Expr::Value(x), a) && crate::expr::evals(ar, e, b)
                && #[trigger] crate::expr::combines(ar, crate::expr::Op::Mul, a, b, r);
        assert(a == x && b == v);
    }
}

/// `v` may be the cosine of the angle of pair `i`.
pub open spec fn is_cosine<T, A: Arith<T>>(
    ar: &A,
    theta: T,
    head_dim: usize,
    position: usize,
    i: int,
    v: T,
) -> bool {
    crate::expr::evals(ar, rope_angle(theta, head_dim, position, i as usize).cosine(), v)
}

/// `v` may be the sine of the angle of pair `i`.
pub open spec fn is_sine<T, A: Arith<T>>(
    ar: &A,
    theta: T,
    head_dim: usize,
    position: usize,
    i: int,
    v: T,
) -> bool {
    crate::expr::evals(ar, rope_angle(theta, head_dim, position, i as usize).sine(), v)
}

/// The cosines and sines of the angles of the pairs of a head.
pub fn rope_trig_tables<T: Copy, A: Arith<T>>(ar: &A, head_dim: usize, position: usize, theta: T) -> (r:
    (Vec<T>, Vec<T>))
    ensures
        r.0@.len() == head_dim / 2,
        r.1@.len() == head_dim / 2,
        forall|i: int|
            0 <= i < r.0@.len() ==> is_cosine(
                ar,
                theta,
                head_dim,
                position,
                i,
                #[trigger] r.0@[i],
            ),
        forall|i: int|
            0 <= i < r.1@.len() ==> is_sine(
                ar,
                theta,
                head_dim,
                position,
                i,
                #[trigger] r.1@[i],
            ),
{
    let half: usize = head_dim / 2;
    let pos = Term::size(ar, position);
    let width = Term::size(ar, head_dim);
    let mut cos: Vec<T> = Vec::with_capacity(half);
    let mut sin: Vec<T> = Vec::with_capacity(half);
    let mut i: usize = 0;
    while i < half
        invariant
            half == head_dim / 2,
            pos.holds(ar),
            pos.expr@ == crate::expr::Expr::<T>::Size(position),
            width.holds(ar),
            width.expr@ == crate::expr::Expr::<T>::Size(head_dim),
            i <= half,
            cos@.len() == i,
            sin@.len() == i,
            forall|k: int|
                0 <= k < i ==> is_cosine(ar, theta, head_dim, position, k, #[trigger] cos@[k]),
            forall|k: int|
                0 <= k < i ==> is_sine(ar, theta, head_dim, position, k, #[trigger] sin@[k]),
        decreases half - i,
    {
        let power = Term::whole(ar, -2).times(ar, &Term::size(ar, i)).over(ar, &width);
        let angle = pos.times(ar, &Term::of(ar, theta).to_the(ar, &power));
        assert(angle.expr@ == rope_angle(theta, head_dim, position, i));
        let c = angle.cosine(ar);
        let s = angle.sine(ar);
        cos.push(c.value);
        sin.push(s.value);
        i = i + 1;
    }
    (cos, sin)
}

} // verus!
