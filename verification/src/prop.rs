use vstd::prelude::*;
use crate::scalar::Scalar;

verus! {

/// A running statistic: the instantaneous `value`, and over the current
/// window its `sum` and the sum of its squares, `sum2`. After `average`,
/// `sum` holds the window mean and `sum2` the standard deviation.
#[derive(Debug)]
pub struct Prop<S: Scalar> {
    pub value: S,
    pub sum: S,
    pub sum2: S,
}

impl<S: Scalar> Prop<S> {
    /// The statistic with all three fields zero.
    pub open spec fn cleared() -> Prop<S> {
        Prop { value: S::count(0), sum: S::count(0), sum2: S::count(0) }
    }

    /// The statistic with `value` folded into the window.
    pub open spec fn accumulated(self) -> Prop<S> {
        Prop {
            value: self.value,
            sum: S::sum(self.sum, self.value),
            sum2: S::sum(self.sum2, S::product(self.value, self.value)),
        }
    }

    /// The variance estimate of a window of `steps` values with mean `mean`
    /// and sum of squares `sum2`.
    pub open spec fn dispersion(mean: S, sum2: S, steps: usize) -> S {
        S::diff(S::quotient(sum2, S::count(steps)), S::product(mean, mean))
    }

    /// The statistic with the window sums of `steps` values turned into mean
    /// and standard deviation; a dispersion that is not positive gives zero.
    pub open spec fn averaged(self, steps: usize) -> Prop<S> {
        let mean = S::quotient(self.sum, S::count(steps));
        let d = Self::dispersion(mean, self.sum2, steps);
        Prop {
            value: self.value,
            sum: mean,
            sum2: if S::less(S::count(0), d) {
                S::square_root(d)
            } else {
                S::count(0)
            },
        }
    }

    /// A statistic with all three fields zero.
    pub fn new() -> (r: Prop<S>)
        ensures
            r == Self::cleared(),
    {
        Prop { value: S::of_count(0), sum: S::of_count(0), sum2: S::of_count(0) }
    }

    /// Clears all three fields for the next window.
    pub fn reset(&mut self)
        ensures
            *final(self) == Self::cleared(),
    {
        self.value = S::of_count(0);
        self.sum = S::of_count(0);
        self.sum2 = S::of_count(0);
    }

    /// Folds `value` into the window: into `sum`, and its square into `sum2`.
    pub fn accumulate(&mut self)
        ensures
            *final(self) == old(self).accumulated(),
    {
        self.sum = self.sum.plus(self.value);
        self.sum2 = self.sum2.plus(self.value.times(self.value));
    }

    /// Turns the sums of a window of `steps` values into mean and standard
    /// deviation.
    pub fn average(&mut self, steps: usize)
        ensures
            *final(self) == old(self).averaged(steps),
    {
        let n = S::of_count(steps);
        self.sum = self.sum.over(n);
        let dispersion = self.sum2.over(n).minus(self.sum.times(self.sum));
        self.sum2 = if S::of_count(0).below(dispersion) {
            dispersion.root()
        } else {
            S::of_count(0)
        };
    }
}

} // verus!
