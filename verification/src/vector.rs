use vstd::prelude::*;
use crate::scalar::Scalar;

verus! {

/// The vector of `d` zeros.
pub open spec fn zeros<S: Scalar>(d: nat) -> Seq<S> {
    Seq::new(d, |k: int| S::count(0))
}

/// Componentwise sum; the result has the length of `a`.
pub open spec fn seq_sum<S: Scalar>(a: Seq<S>, b: Seq<S>) -> Seq<S> {
    Seq::new(a.len(), |k: int| S::sum(a[k], b[k]))
}

/// Componentwise difference; the result has the length of `a`.
pub open spec fn seq_diff<S: Scalar>(a: Seq<S>, b: Seq<S>) -> Seq<S> {
    Seq::new(a.len(), |k: int| S::diff(a[k], b[k]))
}

/// Every component multiplied by `factor` on the right.
pub open spec fn seq_scaled<S: Scalar>(a: Seq<S>, factor: S) -> Seq<S> {
    Seq::new(a.len(), |k: int| S::product(a[k], factor))
}

/// The sum of the first `n` components, added from the left starting at zero.
pub open spec fn total_prefix<S: Scalar>(a: Seq<S>, n: nat) -> S
    decreases n,
{
    if n == 0 {
        S::count(0)
    } else {
        S::sum(total_prefix(a, (n - 1) as nat), a[n - 1])
    }
}

/// The sum of the products of the first `n` component pairs, added from the
/// left starting at zero.
pub open spec fn dot_prefix<S: Scalar>(a: Seq<S>, b: Seq<S>, n: nat) -> S
    decreases n,
{
    if n == 0 {
        S::count(0)
    } else {
        S::sum(dot_prefix(a, b, (n - 1) as nat), S::product(a[n - 1], b[n - 1]))
    }
}

/// The dot product of `a` and `b` over the length of `a`.
pub open spec fn seq_dot<S: Scalar>(a: Seq<S>, b: Seq<S>) -> S {
    dot_prefix(a, b, a.len())
}

/// What is added to a coordinate `c` on an axis of length `size` to fold it
/// into the nearest periodic image: one box length down from the upper half
/// bound on, one up below the lower half bound, zero in between.
pub open spec fn image_shift<S: Scalar>(size: S, c: S) -> S {
    if S::at_least(c, S::quotient(size, S::count(2))) {
        S::opposite(size)
    } else if S::less(c, S::quotient(S::opposite(size), S::count(2))) {
        size
    } else {
        S::count(0)
    }
}

/// The minimum-image fold of `v` in a box with edge lengths `size`, axis by axis.
pub open spec fn wrapped<S: Scalar>(size: Seq<S>, v: Seq<S>) -> Seq<S> {
    Seq::new(v.len(), |k: int| S::sum(v[k], image_shift(size[k], v[k])))
}

/// A tuple of `D` scalars.
#[derive(Debug)]
pub struct Vector<S: Scalar, const D: usize> {
    components: [S; D],
}

/// A periodic box; `size` holds its edge length on each axis.
#[derive(Debug)]
pub struct Region<S: Scalar, const D: usize> {
    pub size: Vector<S, D>,
}

impl<S: Scalar, const D: usize> View for Vector<S, D> {
    type V = Seq<S>;

    closed spec fn view(&self) -> Seq<S> {
        self.components@
    }
}

impl<S: Scalar, const D: usize> Vector<S, D> {
    /// Every vector has exactly `D` components.
    pub proof fn lemma_dimension(&self)
        ensures
            self@.len() == D,
    {
    }

    /// The zero vector.
    pub fn new() -> (r: Self)
        ensures
            r@ == zeros::<S>(D as nat),
    {
        let r = Vector { components: [S::of_count(0);D] };
        assert(r@ =~= zeros::<S>(D as nat));
        r
    }

    /// The components, in order.
    pub fn components<'a>(&'a self) -> (r: &'a [S; D])
        ensures
            r@ == self@,
    {
        &self.components
    }

    /// The sum of the components, added from the left starting at zero.
    pub fn component_sum(&self) -> (r: S)
        ensures
            r == total_prefix(self@, D as nat),
    {
        let mut r = S::of_count(0);
        let mut i: usize = 0;
        while i < D
            invariant
                i <= D,
                r == total_prefix(self@, i as nat),
            decreases D - i,
        {
            r = r.plus(self.components[i]);
            i += 1;
        }
        r
    }

    /// The vector with the given components.
    pub fn from(components: [S; D]) -> (r: Self)
        ensures
            r@ == components@,
    {
        Vector { components }
    }

    /// Adds `other`, component by component.
    pub fn plus(&mut self, other: &Vector<S, D>)
        ensures
            final(self)@ == seq_sum(old(self)@, other@),
    {
        let mut i: usize = 0;
        while i < D
            invariant
                i <= D,
                forall|k: int| 0 <= k < i ==> self.components@[k] == S::sum(old(self).components@[k], other.components@[k]),
                forall|k: int| i <= k < D ==> self.components@[k] == old(self).components@[k],
            decreases D - i,
        {
            let x = self.components[i].plus(other.components[i]);
            self.components[i] = x;
            i += 1;
        }
        assert(self@ =~= seq_sum(old(self)@, other@));
    }

    /// A new vector: this one with every component multiplied by `factor`.
    pub fn new_scaled_by(&self, factor: S) -> (r: Self)
        ensures
            r@ == seq_scaled(self@, factor),
    {
        let mut result = Vector::from(self.components);
        result.multiply_by(factor);
        result
    }

    /// Multiplies every component by `factor`.
    pub fn multiply_by(&mut self, factor: S)
        ensures
            final(self)@ == seq_scaled(old(self)@, factor),
    {
        let mut i: usize = 0;
        while i < D
            invariant
                i <= D,
                forall|k: int| 0 <= k < i ==> self.components@[k] == S::product(old(self).components@[k], factor),
                forall|k: int| i <= k < D ==> self.components@[k] == old(self).components@[k],
            decreases D - i,
        {
            let x = self.components[i].times(factor);
            self.components[i] = x;
            i += 1;
        }
        assert(self@ =~= seq_scaled(old(self)@, factor));
    }

    /// The dot product with `other`, summed from the first axis on.
    pub fn dot(&self, other: &Vector<S, D>) -> (r: S)
        ensures
            r == seq_dot(self@, other@),
    {
        let mut r = S::of_count(0);
        let mut i: usize = 0;
        while i < D
            invariant
                i <= D,
                r == dot_prefix(self@, other@, i as nat),
            decreases D - i,
        {
            r = r.plus(self.components[i].times(other.components[i]));
            i += 1;
        }
        r
    }

    /// A new vector: this one less `other`, component by component.
    pub fn difference(&self, other: &Vector<S, D>) -> (r: Self)
        ensures
            r@ == seq_diff(self@, other@),
    {
        let mut c = [S::of_count(0);D];
        let mut i: usize = 0;
        while i < D
            invariant
                i <= D,
                forall|k: int| 0 <= k < i ==> c@[k] == S::diff(self.components@[k], other.components@[k]),
            decreases D - i,
        {
            c[i] = self.components[i].minus(other.components[i]);
            i += 1;
        }
        assert(c@ =~= seq_diff(self@, other@));
        Vector::from(c)
    }

    /// The dot product of the vector with itself.
    pub fn vector_squared(&self) -> (r: S)
        ensures
            r == seq_dot(self@, self@),
    {
        self.dot(self)
    }

    /// The squared length, which is the dot product of the vector with itself.
    pub fn squared_length(&self) -> (r: S)
        ensures
            r == seq_dot(self@, self@),
    {
        self.vector_squared()
    }
}

impl<S: Scalar, const D: usize> Region<S, D> {
    /// Whether every edge length is strictly positive, as the engine's results
    /// presume; no function demands it.
    pub open spec fn well_formed(&self) -> bool {
        forall|k: int| 0 <= k < D ==> S::less(S::count(0), #[trigger] self.size@[k])
    }

    /// The box with the given edge lengths.
    pub fn new(size: [S; D]) -> (r: Self)
        ensures
            r.size@ == size@,
    {
        Region { size: Vector::from(size) }
    }

    /// Folds `coords` into the nearest periodic image by at most one box
    /// length per axis; a coordinate further out is moved by one box length
    /// all the same.
    pub fn wrap(&self, coords: &mut Vector<S, D>)
        ensures
            final(coords)@ == wrapped(self.size@, old(coords)@),
    {
        let mut shift = [S::of_count(0);D];
        let two = S::of_count(2);
        let mut i: usize = 0;
        while i < D
            invariant
                i <= D,
                two == S::count(2),
                coords@ == old(coords)@,
                forall|k: int| 0 <= k < i ==> shift@[k] == image_shift(self.size.components@[k], coords.components@[k]),
            decreases D - i,
        {
            let component = coords.components[i];
            let size_i = self.size.components[i];
            if component.not_below(size_i.over(two)) {
                shift[i] = size_i.negated();
            } else if component.below(size_i.negated().over(two)) {
                shift[i] = size_i;
            } else {
                shift[i] = S::of_count(0);
            }
            i += 1;
        }
        coords.plus(&Vector::from(shift));
        assert(coords@ =~= wrapped(self.size@, old(coords)@));
    }

    /// The edge lengths scaled by `factor`.
    pub fn get_shift(&self, factor: S) -> (r: Vector<S, D>)
        ensures
            r@ == seq_scaled(self.size@, factor),
    {
        self.size.new_scaled_by(factor)
    }
}

} // verus!
