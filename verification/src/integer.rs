use vstd::prelude::*;
use vstd::arithmetic::div_mod::{lemma_mul_mod_noop_left, lemma_mul_mod_noop_right, lemma_add_mod_noop, lemma_mod_bound, lemma_small_mod, lemma_mod_multiples_vanish};
use vstd::wrapping::i64_specs::signed_crop;
use crate::scalar::Scalar;
use crate::vector::{zeros, seq_sum, seq_diff, seq_scaled, seq_dot};
use crate::laws::{
    lemma_plus_zero, lemma_scale_twice, lemma_difference, lemma_dot_symmetric, ring_arithmetic, zero_is_neutral, sum_commutes, sum_associates, zero_annihilates,
    product_commutes, product_associates, product_distributes,
};

verus! {

/// The largest whole number whose square fits an `i64`.
pub const MAX_ROOT: u64 = 3_037_000_499;

/// The largest whole number up to `r` whose square is at most `a`; zero if
/// there is none.
pub open spec fn floor_root(a: int, r: nat) -> int
    decreases r,
{
    if r == 0 {
        0
    } else if r * r <= a {
        r as int
    } else {
        floor_root(a, (r - 1) as nat)
    }
}

/// From any bound at or above it, `floor_root` finds the whole number whose
/// square is at most `a` while the next square is not.
pub proof fn lemma_floor_root(a: int, s: nat, r: nat)
    requires
        s * s <= a < (s + 1) * (s + 1),
        s <= r,
    ensures
        floor_root(a, r) == s,
    decreases r,
{
    if r > s {
        assert(r * r >= (s + 1) * (s + 1)) by (nonlinear_arith)
            requires
                r >= s + 1,
        ;
        lemma_floor_root(a, s, (r - 1) as nat);
    }
}

/// Below zero there is no square.
pub proof fn lemma_floor_root_negative(a: int, r: nat)
    requires
        a < 0,
    ensures
        floor_root(a, r) == 0,
    decreases r,
{
    if r > 0 {
        assert(r * r >= 0) by (nonlinear_arith);
        lemma_floor_root_negative(a, (r - 1) as nat);
    }
}

/// Whole numbers as scalars: sums, differences and products wrap around,
/// quotients are cut towards zero and are zero where the machine has none,
/// roots are cut down and are zero below zero.
impl Scalar for i64 {
    open spec fn count(n: usize) -> i64 {
        n as i64
    }

    open spec fn sum(a: i64, b: i64) -> i64 {
        a.wrapping_add(b)
    }

    open spec fn diff(a: i64, b: i64) -> i64 {
        a.wrapping_sub(b)
    }

    open spec fn product(a: i64, b: i64) -> i64 {
        a.wrapping_mul(b)
    }

    open spec fn quotient(a: i64, b: i64) -> i64 {
        match a.checked_div(b) {
            Some(q) => q,
            None => 0,
        }
    }

    open spec fn opposite(a: i64) -> i64 {
        0i64.wrapping_sub(a)
    }

    open spec fn square_root(a: i64) -> i64 {
        floor_root(a as int, MAX_ROOT as nat) as i64
    }

    open spec fn less(a: i64, b: i64) -> bool {
        a < b
    }

    open spec fn at_least(a: i64, b: i64) -> bool {
        a >= b
    }

    fn of_count(n: usize) -> (r: i64) {
        n as i64
    }

    fn plus(self, other: i64) -> (r: i64) {
        self.wrapping_add(other)
    }

    fn minus(self, other: i64) -> (r: i64) {
        self.wrapping_sub(other)
    }

    fn times(self, other: i64) -> (r: i64) {
        self.wrapping_mul(other)
    }

    fn over(self, other: i64) -> (r: i64) {
        match self.checked_div(other) {
            Some(q) => q,
            None => 0,
        }
    }

    fn negated(self) -> (r: i64) {
        0i64.wrapping_sub(self)
    }

    fn root(self) -> (r: i64) {
        if self < 0 {
            proof {
                lemma_floor_root_negative(self as int, MAX_ROOT as nat);
            }
            return 0;
        }
        let a: u64 = self as u64;
        let mut low: u64 = 0;
        let mut high: u64 = MAX_ROOT + 1;
        assert(high * high > a) by (nonlinear_arith)
            requires
                high == 3_037_000_500,
                a <= 0x7fff_ffff_ffff_ffff,
        ;
        while high - low > 1
            invariant
                low < high <= MAX_ROOT + 1,
                low * low <= a,
                a < high * high,
            decreases high - low,
        {
            let mid: u64 = low + (high - low) / 2;
            assert(mid * mid <= 3_037_000_500 * 3_037_000_500) by (nonlinear_arith)
                requires
                    mid <= 3_037_000_500,
            ;
            if mid * mid <= a {
                low = mid;
            } else {
                high = mid;
            }
        }
        proof {
            lemma_floor_root(self as int, low as nat, MAX_ROOT as nat);
        }
        low as i64
    }

    fn below(self, other: i64) -> (r: bool) {
        self < other
    }

    fn not_below(self, other: i64) -> (r: bool) {
        self >= other
    }
}

/// The number of values of an `i64`.
pub open spec fn range() -> int {
    0x1_0000_0000_0000_0000
}

/// Cropping keeps a number's remainder.
proof fn lemma_crop_keeps_remainder(x: int)
    ensures
        (signed_crop(x) as int) % range() == x % range(),
{
    let r = range();
    lemma_mod_bound(x, r);
    let m = x % r;
    if m > i64::MAX {
        lemma_mod_multiples_vanish(-1, m, r);
        lemma_small_mod(m as nat, r as nat);
    } else {
        lemma_small_mod(m as nat, r as nat);
    }
}

/// A wrapping sum is the cropped sum.
proof fn lemma_sum_is_cropped(a: i64, b: i64)
    ensures
        a.wrapping_add(b) == signed_crop(a + b),
{
    let r = range();
    let x = a + b;
    if x < 0 {
        lemma_mod_multiples_vanish(1, x, r);
        lemma_small_mod((x + r) as nat, r as nat);
    } else {
        lemma_small_mod(x as nat, r as nat);
    }
}

proof fn lemma_product_associates(a: i64, b: i64, c: i64)
    ensures
        i64::product(i64::product(a, b), c) == i64::product(a, i64::product(b, c)),
{
    let r = range();
    lemma_crop_keeps_remainder(a * b);
    lemma_crop_keeps_remainder(b * c);
    let ab = signed_crop(a * b) as int;
    let bc = signed_crop(b * c) as int;
    lemma_mul_mod_noop_left(ab, c as int, r);
    lemma_mul_mod_noop_left(a * b, c as int, r);
    lemma_mul_mod_noop_right(a as int, bc, r);
    lemma_mul_mod_noop_right(a as int, b * c, r);
    assert((a * b) * c == a * (b * c)) by (nonlinear_arith);
}

proof fn lemma_product_distributes(a: i64, b: i64, c: i64)
    ensures
        i64::product(i64::sum(a, b), c) == i64::sum(i64::product(a, c), i64::product(b, c)),
{
    let r = range();
    lemma_sum_is_cropped(a, b);
    lemma_crop_keeps_remainder(a + b);
    lemma_crop_keeps_remainder(a * c);
    lemma_crop_keeps_remainder(b * c);
    let s = signed_crop(a + b) as int;
    let ac = signed_crop(a * c);
    let bc = signed_crop(b * c);
    lemma_sum_is_cropped(ac, bc);
    lemma_mul_mod_noop_left(s, c as int, r);
    lemma_mul_mod_noop_left(a + b, c as int, r);
    lemma_add_mod_noop(ac as int, bc as int, r);
    lemma_add_mod_noop(a * c, b * c, r);
    assert((a + b) * c == a * c + b * c) by (nonlinear_arith);
}

/// Whole numbers with wrapping arithmetic form a commutative ring.
pub proof fn lemma_integer_ring()
    ensures
        ring_arithmetic::<i64>(),
{
    reveal(zero_is_neutral);
    reveal(sum_commutes);
    reveal(sum_associates);
    reveal(zero_annihilates);
    reveal(product_commutes);
    reveal(product_associates);
    reveal(product_distributes);
    assert forall|a: i64| #[trigger] i64::product(i64::count(0), a) == i64::count(0) by {
        assert(0 * a == 0) by (nonlinear_arith);
        lemma_small_mod(0, range() as nat);
    }
    assert forall|a: i64, b: i64| #[trigger] i64::product(a, b) == i64::product(b, a) by {
        assert(a * b == b * a) by (nonlinear_arith);
    }
    assert forall|a: i64, b: i64, c: i64| #[trigger]
        i64::product(i64::product(a, b), c) == i64::product(a, i64::product(b, c)) by {
        lemma_product_associates(a, b, c);
    }
    assert forall|a: i64, b: i64, c: i64| #[trigger]
        i64::product(i64::sum(a, b), c) == i64::sum(i64::product(a, c), i64::product(b, c)) by {
        lemma_product_distributes(a, b, c);
    }
}

/// A wrapping difference is the wrapping sum with the subtrahend times
/// minus one.
proof fn lemma_difference_is_sum(a: i64, b: i64)
    ensures
        i64::diff(a, b) == i64::sum(a, i64::product(b, i64::opposite(i64::count(1)))),
{
    let r = range();
    let nb = signed_crop(b * -1);
    lemma_crop_keeps_remainder(b * -1);
    lemma_sum_is_cropped(a, nb);
    lemma_add_mod_noop(a as int, nb as int, r);
    lemma_add_mod_noop(a as int, b * -1, r);
}

/// Of vectors of whole numbers the laws of vector arithmetic hold without
/// condition: zero is neutral, scalings compose, the dot product is
/// symmetric, and a difference is a sum with the negative.
pub proof fn lemma_integer_vectors(a: Seq<i64>, b: Seq<i64>, c1: i64, c2: i64)
    requires
        a.len() == b.len(),
    ensures
        seq_sum(a, zeros::<i64>(a.len())) == a,
        seq_scaled(seq_scaled(a, c1), c2) == seq_scaled(a, i64::product(c1, c2)),
        seq_dot(a, b) == seq_dot(b, a),
        seq_diff(a, b) == seq_sum(a, seq_scaled(b, i64::opposite(i64::count(1)))),
{
    lemma_plus_zero(a);
    assert forall|k: int| 0 <= k < a.len() implies i64::product(
        i64::product(#[trigger] a[k], c1),
        c2,
    ) == i64::product(a[k], i64::product(c1, c2)) by {
        lemma_product_associates(a[k], c1, c2);
    }
    lemma_scale_twice(a, c1, c2);
    assert forall|k: int| 0 <= k < a.len() implies (#[trigger] i64::product(a[k], b[k]))
        == i64::product(b[k], a[k]) by {
        assert(a[k] * b[k] == b[k] * a[k]) by (nonlinear_arith);
    }
    lemma_dot_symmetric(a, b);
    assert forall|k: int| 0 <= k < a.len() implies (#[trigger] i64::diff(a[k], b[k])) == i64::sum(
        a[k],
        i64::product(b[k], i64::opposite(i64::count(1))),
    ) by {
        lemma_difference_is_sum(a[k], b[k]);
    }
    lemma_difference(a, b);
}

} // verus!
