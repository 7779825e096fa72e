use vstd::prelude::*;
use crate::scalar::Scalar;
use crate::vector::{zeros, seq_sum, seq_diff, seq_scaled, seq_dot, dot_prefix, wrapped};
use crate::prop::Prop;

verus! {

/// Adding zero changes no value.
#[verifier::opaque]
pub open spec fn zero_is_neutral<S: Scalar>() -> bool {
    forall|a: S| #[trigger] S::sum(a, S::count(0)) == a
}

/// A sum does not depend on the order of its terms.
#[verifier::opaque]
pub open spec fn sum_commutes<S: Scalar>() -> bool {
    forall|a: S, b: S| #[trigger] S::sum(a, b) == S::sum(b, a)
}

/// A sum of three does not depend on which two are added first.
#[verifier::opaque]
pub open spec fn sum_associates<S: Scalar>() -> bool {
    forall|a: S, b: S, c: S| #[trigger] S::sum(S::sum(a, b), c) == S::sum(a, S::sum(b, c))
}

/// Zero times any value is zero.
#[verifier::opaque]
pub open spec fn zero_annihilates<S: Scalar>() -> bool {
    forall|a: S| #[trigger] S::product(S::count(0), a) == S::count(0)
}

/// A product does not depend on the order of its factors.
#[verifier::opaque]
pub open spec fn product_commutes<S: Scalar>() -> bool {
    forall|a: S, b: S| #[trigger] S::product(a, b) == S::product(b, a)
}

/// A product of three does not depend on which two are multiplied first.
#[verifier::opaque]
pub open spec fn product_associates<S: Scalar>() -> bool {
    forall|a: S, b: S, c: S| #[trigger]
        S::product(S::product(a, b), c) == S::product(a, S::product(b, c))
}

/// A sum times a factor is the sum of the terms times the factor.
#[verifier::opaque]
pub open spec fn product_distributes<S: Scalar>() -> bool {
    forall|a: S, b: S, c: S| #[trigger]
        S::product(S::sum(a, b), c) == S::sum(S::product(a, c), S::product(b, c))
}

/// The scalar operations obey the laws of a commutative ring on all values.
/// Exact number types meet this; rounding ones do not.
pub open spec fn ring_arithmetic<S: Scalar>() -> bool {
    &&& zero_is_neutral::<S>()
    &&& sum_commutes::<S>()
    &&& sum_associates::<S>()
    &&& zero_annihilates::<S>()
    &&& product_commutes::<S>()
    &&& product_associates::<S>()
    &&& product_distributes::<S>()
}

proof fn lemma_regroup<S: Scalar>(p: S, q: S, x: S, y: S)
    requires
        ring_arithmetic::<S>(),
    ensures
        S::sum(S::sum(p, q), S::sum(x, y)) == S::sum(S::sum(p, x), S::sum(q, y)),
{
    reveal(sum_commutes);
    reveal(sum_associates);
    assert(S::sum(S::sum(p, q), S::sum(x, y)) == S::sum(p, S::sum(q, S::sum(x, y))));
    assert(S::sum(S::sum(q, x), y) == S::sum(q, S::sum(x, y)));
    assert(S::sum(q, x) == S::sum(x, q));
    assert(S::sum(S::sum(x, q), y) == S::sum(x, S::sum(q, y)));
    assert(S::sum(S::sum(p, x), S::sum(q, y)) == S::sum(p, S::sum(x, S::sum(q, y))));
}

proof fn lemma_swap_factor<S: Scalar>(x: S, s: S, y: S)
    requires
        ring_arithmetic::<S>(),
    ensures
        S::product(S::product(x, s), y) == S::product(S::product(x, y), s),
{
    reveal(product_commutes);
    reveal(product_associates);
    assert(S::product(S::product(x, s), y) == S::product(x, S::product(s, y)));
    assert(S::product(s, y) == S::product(y, s));
    assert(S::product(S::product(x, y), s) == S::product(x, S::product(y, s)));
}

/// Adding the zero vector changes nothing, provided adding zero changes no
/// component.
pub proof fn lemma_plus_zero<S: Scalar>(a: Seq<S>)
    requires
        forall|k: int| 0 <= k < a.len() ==> S::sum(#[trigger] a[k], S::count(0)) == a[k],
    ensures
        seq_sum(a, zeros::<S>(a.len())) == a,
{
    assert(seq_sum(a, zeros::<S>(a.len())) =~= a);
}

/// Scaling by `c1` and then by `c2` is scaling by their product, provided
/// the two products associate on every component.
pub proof fn lemma_scale_twice<S: Scalar>(a: Seq<S>, c1: S, c2: S)
    requires
        forall|k: int|
            0 <= k < a.len() ==> S::product(S::product(#[trigger] a[k], c1), c2) == S::product(
                a[k],
                S::product(c1, c2),
            ),
    ensures
        seq_scaled(seq_scaled(a, c1), c2) == seq_scaled(a, S::product(c1, c2)),
{
    assert(seq_scaled(seq_scaled(a, c1), c2) =~= seq_scaled(a, S::product(c1, c2)));
}

/// The difference of two vectors is the first plus the second scaled by
/// minus one, provided that holds of every pair of components.
pub proof fn lemma_difference<S: Scalar>(a: Seq<S>, b: Seq<S>)
    requires
        a.len() == b.len(),
        forall|k: int|
            0 <= k < a.len() ==> (#[trigger] S::diff(a[k], b[k])) == S::sum(
                a[k],
                S::product(b[k], S::opposite(S::count(1))),
            ),
    ensures
        seq_diff(a, b) == seq_sum(a, seq_scaled(b, S::opposite(S::count(1)))),
{
    assert(seq_diff(a, b) =~= seq_sum(a, seq_scaled(b, S::opposite(S::count(1)))));
}

proof fn lemma_dot_prefix_symmetric<S: Scalar>(a: Seq<S>, b: Seq<S>, n: nat)
    requires
        forall|k: int| 0 <= k < n ==> (#[trigger] S::product(a[k], b[k])) == S::product(b[k], a[k]),
    ensures
        dot_prefix(a, b, n) == dot_prefix(b, a, n),
    decreases n,
{
    if n > 0 {
        lemma_dot_prefix_symmetric(a, b, (n - 1) as nat);
        assert(S::product(a[n - 1], b[n - 1]) == S::product(b[n - 1], a[n - 1]));
    }
}

/// The dot product is symmetric, provided the product of each pair of
/// components is.
pub proof fn lemma_dot_symmetric<S: Scalar>(a: Seq<S>, b: Seq<S>)
    requires
        a.len() == b.len(),
        forall|k: int|
            0 <= k < a.len() ==> (#[trigger] S::product(a[k], b[k])) == S::product(b[k], a[k]),
    ensures
        seq_dot(a, b) == seq_dot(b, a),
{
    lemma_dot_prefix_symmetric(a, b, a.len());
}

proof fn lemma_dot_prefix_additive<S: Scalar>(a: Seq<S>, b: Seq<S>, c: Seq<S>, n: nat)
    requires
        ring_arithmetic::<S>(),
        n <= a.len(),
    ensures
        dot_prefix(seq_sum(a, b), c, n) == S::sum(dot_prefix(a, c, n), dot_prefix(b, c, n)),
    decreases n,
{
    if n > 0 {
        lemma_dot_prefix_additive(a, b, c, (n - 1) as nat);
        let p = dot_prefix(a, c, (n - 1) as nat);
        let q = dot_prefix(b, c, (n - 1) as nat);
        let x = S::product(a[n - 1], c[n - 1]);
        let y = S::product(b[n - 1], c[n - 1]);
        assert(seq_sum(a, b)[n - 1] == S::sum(a[n - 1], b[n - 1]));
        assert(S::product(S::sum(a[n - 1], b[n - 1]), c[n - 1]) == S::sum(x, y)) by {
            reveal(product_distributes);
        }
        lemma_regroup(p, q, x, y);
    } else {
        assert(S::sum(S::count(0), S::count(0)) == S::count(0)) by {
            reveal(zero_is_neutral);
        }
    }
}

proof fn lemma_dot_prefix_homogeneous<S: Scalar>(a: Seq<S>, s: S, c: Seq<S>, n: nat)
    requires
        ring_arithmetic::<S>(),
        n <= a.len(),
    ensures
        dot_prefix(seq_scaled(a, s), c, n) == S::product(dot_prefix(a, c, n), s),
    decreases n,
{
    if n > 0 {
        lemma_dot_prefix_homogeneous(a, s, c, (n - 1) as nat);
        let p = dot_prefix(a, c, (n - 1) as nat);
        let x = a[n - 1];
        let y = c[n - 1];
        assert(seq_scaled(a, s)[n - 1] == S::product(x, s));
        lemma_swap_factor(x, s, y);
        assert(S::product(S::sum(p, S::product(x, y)), s) == S::sum(
            S::product(p, s),
            S::product(S::product(x, y), s),
        )) by {
            reveal(product_distributes);
        }
    } else {
        assert(S::product(S::count(0), s) == S::count(0)) by {
            reveal(zero_annihilates);
        }
    }
}

/// Over ring arithmetic the dot product is additive in its first argument.
pub proof fn lemma_dot_additive<S: Scalar>(a: Seq<S>, b: Seq<S>, c: Seq<S>)
    requires
        ring_arithmetic::<S>(),
        a.len() == b.len(),
    ensures
        seq_dot(seq_sum(a, b), c) == S::sum(seq_dot(a, c), seq_dot(b, c)),
{
    assert(seq_sum(a, b).len() == a.len());
    lemma_dot_prefix_additive(a, b, c, a.len());
}

/// Over ring arithmetic a factor of the first argument can be drawn out of
/// the dot product.
pub proof fn lemma_dot_homogeneous<S: Scalar>(a: Seq<S>, s: S, c: Seq<S>)
    requires
        ring_arithmetic::<S>(),
    ensures
        seq_dot(seq_scaled(a, s), c) == S::product(seq_dot(a, c), s),
{
    assert(seq_scaled(a, s).len() == a.len());
    lemma_dot_prefix_homogeneous(a, s, c, a.len());
}

/// Over ring arithmetic the dot product is additive and homogeneous in its
/// second argument too.
pub proof fn lemma_dot_linear_right<S: Scalar>(c: Seq<S>, a: Seq<S>, b: Seq<S>, s: S)
    requires
        ring_arithmetic::<S>(),
        a.len() == c.len(),
        b.len() == c.len(),
    ensures
        seq_dot(c, seq_sum(a, b)) == S::sum(seq_dot(c, a), seq_dot(c, b)),
        seq_dot(c, seq_scaled(a, s)) == S::product(seq_dot(c, a), s),
{
    let ab = seq_sum(a, b);
    let sa = seq_scaled(a, s);
    assert forall|k: int| 0 <= k < c.len() implies (#[trigger] S::product(c[k], ab[k]))
        == S::product(ab[k], c[k]) by {
        reveal(product_commutes);
    }
    assert forall|k: int| 0 <= k < c.len() implies (#[trigger] S::product(c[k], a[k]))
        == S::product(a[k], c[k]) by {
        reveal(product_commutes);
    }
    assert forall|k: int| 0 <= k < c.len() implies (#[trigger] S::product(c[k], b[k]))
        == S::product(b[k], c[k]) by {
        reveal(product_commutes);
    }
    assert forall|k: int| 0 <= k < c.len() implies (#[trigger] S::product(c[k], sa[k]))
        == S::product(sa[k], c[k]) by {
        reveal(product_commutes);
    }
    lemma_dot_prefix_symmetric(c, seq_sum(a, b), c.len());
    lemma_dot_prefix_symmetric(c, a, c.len());
    lemma_dot_prefix_symmetric(c, b, c.len());
    lemma_dot_prefix_symmetric(c, seq_scaled(a, s), c.len());
    lemma_dot_prefix_additive(a, b, c, a.len());
    lemma_dot_prefix_homogeneous(a, s, c, a.len());
}

/// A coordinate that is neither at or above half the box length nor below
/// minus half of it stays where it is, provided adding zero changes nothing.
pub proof fn lemma_wrap_inside<S: Scalar>(size: Seq<S>, v: Seq<S>, k: int)
    requires
        0 <= k < v.len(),
        !S::at_least(v[k], S::quotient(size[k], S::count(2))),
        !S::less(v[k], S::quotient(S::opposite(size[k]), S::count(2))),
        S::sum(v[k], S::count(0)) == v[k],
    ensures
        wrapped(size, v)[k] == v[k],
{
}

/// A coordinate at or above half the box length moves down by one box
/// length. At exactly half the box length it lands on minus half of it,
/// provided that is what half the length less the whole length is.
pub proof fn lemma_wrap_above<S: Scalar>(size: Seq<S>, v: Seq<S>, k: int)
    requires
        0 <= k < v.len(),
        S::at_least(v[k], S::quotient(size[k], S::count(2))),
    ensures
        wrapped(size, v)[k] == S::sum(v[k], S::opposite(size[k])),
        v[k] == S::quotient(size[k], S::count(2)) && S::sum(v[k], S::opposite(size[k]))
            == S::quotient(S::opposite(size[k]), S::count(2)) ==> wrapped(size, v)[k]
            == S::quotient(S::opposite(size[k]), S::count(2)),
{
}

/// A coordinate below minus half the box length, and not at or above half
/// of it, moves up by one box length.
pub proof fn lemma_wrap_below<S: Scalar>(size: Seq<S>, v: Seq<S>, k: int)
    requires
        0 <= k < v.len(),
        !S::at_least(v[k], S::quotient(size[k], S::count(2))),
        S::less(v[k], S::quotient(S::opposite(size[k]), S::count(2))),
    ensures
        wrapped(size, v)[k] == S::sum(v[k], size[k]),
{
}

/// The statistic after `value` has been folded in `k` times.
pub open spec fn accumulated_times<S: Scalar>(p: Prop<S>, k: nat) -> Prop<S>
    decreases k,
{
    if k == 0 {
        p
    } else {
        accumulated_times(p, (k - 1) as nat).accumulated()
    }
}

/// Whether adding `x` to `j` times `x` gives `j + 1` times `x`, for every
/// `j` below `k`, and zero times `x` is zero.
pub open spec fn adds_up<S: Scalar>(x: S, k: usize) -> bool {
    &&& S::product(S::count(0), x) == S::count(0)
    &&& forall|j: usize|
        j < k ==> S::sum(#[trigger] S::product(S::count(j), x), x) == S::product(
            S::count((j + 1) as usize),
            x,
        )
}

/// Folding the same value `v` into a cleared statistic `k` times leaves `k`
/// times `v` as the sum and `k` times its square as the sum of squares,
/// provided these repeated additions are exact.
pub proof fn lemma_accumulate_constant<S: Scalar>(v: S, k: usize)
    requires
        adds_up(v, k),
        adds_up(S::product(v, v), k),
    ensures
        accumulated_times((Prop { value: v, ..Prop::<S>::cleared() }), k as nat) == (Prop {
            value: v,
            sum: S::product(S::count(k), v),
            sum2: S::product(S::count(k), S::product(v, v)),
        }),
    decreases k,
{
    if k > 0 {
        let j = (k - 1) as usize;
        lemma_accumulate_constant(v, j);
        assert(S::sum(S::product(S::count(j), v), v) == S::product(S::count((j + 1) as usize), v));
        assert(S::sum(S::product(S::count(j), S::product(v, v)), S::product(v, v)) == S::product(
            S::count((j + 1) as usize),
            S::product(v, v),
        ));
    }
}

/// Averaging the sums of `k` equal values `v` gives mean `v` and deviation
/// zero, provided the two divisions by `k` undo the multiplications, the
/// square of `v` less itself is zero, and zero is not below zero.
pub proof fn lemma_average_constant<S: Scalar>(v: S, k: usize)
    requires
        S::quotient(S::product(S::count(k), v), S::count(k)) == v,
        S::quotient(S::product(S::count(k), S::product(v, v)), S::count(k)) == S::product(v, v),
        S::diff(S::product(v, v), S::product(v, v)) == S::count(0),
        !S::less(S::count(0), S::count(0)),
    ensures
        (Prop {
            value: v,
            sum: S::product(S::count(k), v),
            sum2: S::product(S::count(k), S::product(v, v)),
        }).averaged(k) == (Prop { value: v, sum: v, sum2: S::count(0) }),
{
}

} // verus!
