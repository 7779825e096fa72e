use vstd::prelude::*;

verus! {

/// The numbers the engine computes with.
///
/// Each operation comes as a pair: a specification function that names the
/// result, and an executable method that returns exactly that value.
/// Operations are total and depend on their operands alone; no algebraic law
/// is assumed of them, so that rounding number types fit as well as exact
/// ones.
///
/// For the implementation on `i64` in this library the pairing is proved.
/// An implementation outside verified code, such as one for machine floats,
/// has to supply both halves itself, and nothing checks that its methods
/// return what their twins name: every contract of the engine holds of such
/// a type on that promise.
pub trait Scalar: Copy + Sized {
    /// The scalar that stands for the whole number `n`.
    spec fn count(n: usize) -> Self;

    spec fn sum(a: Self, b: Self) -> Self;

    spec fn diff(a: Self, b: Self) -> Self;

    spec fn product(a: Self, b: Self) -> Self;

    spec fn quotient(a: Self, b: Self) -> Self;

    spec fn opposite(a: Self) -> Self;

    spec fn square_root(a: Self) -> Self;

    /// `a < b`.
    spec fn less(a: Self, b: Self) -> bool;

    /// `a >= b`; on types with unordered values this is not the negation of `less`.
    spec fn at_least(a: Self, b: Self) -> bool;

    fn of_count(n: usize) -> (r: Self)
        ensures
            r == Self::count(n),
    ;

    fn plus(self, other: Self) -> (r: Self)
        ensures
            r == Self::sum(self, other),
    ;

    fn minus(self, other: Self) -> (r: Self)
        ensures
            r == Self::diff(self, other),
    ;

    fn times(self, other: Self) -> (r: Self)
        ensures
            r == Self::product(self, other),
    ;

    fn over(self, other: Self) -> (r: Self)
        ensures
            r == Self::quotient(self, other),
    ;

    fn negated(self) -> (r: Self)
        ensures
            r == Self::opposite(self),
    ;

    fn root(self) -> (r: Self)
        ensures
            r == Self::square_root(self),
    ;

    fn below(self, other: Self) -> (r: bool)
        ensures
            r == Self::less(self, other),
    ;

    fn not_below(self, other: Self) -> (r: bool)
        ensures
            r == Self::at_least(self, other),
    ;
}

} // verus!
