//! Iteration state: what one point's calculation carries from step to step.

use vstd::prelude::*;
use crate::scalar::Scalar;

verus! {

/// The current value of an iteration, a point of the complex plane.
#[derive(Clone, Copy, Debug)]
pub struct Mem<S> {
    pub re: S,
    pub im: S,
}

/// `re * re - im * im`, the real part of the square of `(re, im)`.
pub open spec fn square_re<S: Scalar>(re: S, im: S) -> S {
    re.spec_times(re).spec_minus(im.spec_times(im))
}

/// `2 * re * im`, the imaginary part of the square of `(re, im)`.
pub open spec fn square_im<S: Scalar>(re: S, im: S) -> S {
    S::spec_from_count(2).spec_times(re).spec_times(im)
}

/// `re * re + im * im`, the squared magnitude of `(re, im)`.
pub open spec fn quadrance_of<S: Scalar>(re: S, im: S) -> S {
    re.spec_times(re).spec_plus(im.spec_times(im))
}

impl<S: Scalar> Mem<S> {
    /// The state squared as a complex number.
    pub open spec fn spec_square(self) -> Self {
        Mem { re: square_re(self.re, self.im), im: square_im(self.re, self.im) }
    }

    /// The state moved by `(r, i)`.
    pub open spec fn spec_plus(self, r: S, i: S) -> Self {
        Mem { re: self.re.spec_plus(r), im: self.im.spec_plus(i) }
    }

    pub fn new(re: S, im: S) -> (m: Self)
        ensures
            m == (Mem { re, im }),
    {
        Mem { re, im }
    }

    pub fn plus(&mut self, r: S, i: S)
        ensures
            *final(self) == old(self).spec_plus(r, i),
    {
        self.re = self.re.plus(r);
        self.im = self.im.plus(i);
    }

    pub fn square(&mut self)
        ensures
            *final(self) == old(self).spec_square(),
    {
        let temp = self.re.times(self.re).minus(self.im.times(self.im));
        self.im = S::from_count(2).times(self.re).times(self.im);
        self.re = temp;
    }
}

/// What the escape-path algorithm reads of an iteration state, whatever else
/// the state carries: its current value.
pub trait MemType<S: Scalar>: Sized {
    spec fn spec_re(&self) -> S;

    spec fn spec_im(&self) -> S;

    fn re(&self) -> (re: S)
        ensures
            re == self.spec_re(),
    ;

    fn im(&self) -> (im: S)
        ensures
            im == self.spec_im(),
    ;

    /// The squared distance of the current value from zero.
    fn quadrance(&self) -> (q: S)
        ensures
            q == quadrance_of(self.spec_re(), self.spec_im()),
    ;
}

impl<S: Scalar> MemType<S> for Mem<S> {
    open spec fn spec_re(&self) -> S {
        self.re
    }

    open spec fn spec_im(&self) -> S {
        self.im
    }

    fn re(&self) -> (re: S) {
        self.re
    }

    fn im(&self) -> (im: S) {
        self.im
    }

    fn quadrance(&self) -> (q: S) {
        self.re.times(self.re).plus(self.im.times(self.im))
    }
}

/// The state of a second-order recurrence: the current value, the values of
/// the two steps before it, and the two constants of the formula.
#[derive(Clone, Copy, Debug)]
pub struct MemPhoenix<S> {
    pub m: Mem<S>,
    pub c: S,
    pub p: S,
    pub prev_prev_re: S,
    pub prev_prev_im: S,
    pub prev_re: S,
    pub prev_im: S,
}

impl<S: Scalar> MemType<S> for MemPhoenix<S> {
    open spec fn spec_re(&self) -> S {
        self.m.re
    }

    open spec fn spec_im(&self) -> S {
        self.m.im
    }

    fn re(&self) -> (re: S) {
        self.m.re
    }

    fn im(&self) -> (im: S) {
        self.m.im
    }

    fn quadrance(&self) -> (q: S) {
        self.m.quadrance()
    }
}

} // verus!
