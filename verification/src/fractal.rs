//! What defines a fractal: the recurrence that is iterated, and the numbers
//! that configure a calculation.

use vstd::prelude::*;
use crate::mem::{Mem, MemPhoenix, MemType};
use crate::scalar::Scalar;

verus! {

/// How many sample points a pixel gets when a frame is refined.
#[derive(Clone, Copy, Debug, PartialEq, Eq, Structural)]
pub enum ResolutionMultiplier {
    Single,
    Square5,
    SquareAlter,
}

/// What to calculate: the iteration bounds and the place in the plane.
#[derive(Clone, Copy, Debug)]
pub struct FractalDefinition<S> {
    pub iteration_min: u32,
    pub iteration_max: u32,
    pub area_size: S,
    pub target_re: S,
    pub target_im: S,
}

/// How to present it: the resolution, and what happens after a frame.
#[derive(Clone, Copy, Debug)]
pub struct FractalConfig {
    pub resolution_width: u32,
    pub resolution_height: u32,
    pub resolution_multiplier: ResolutionMultiplier,
    pub repeat: bool,
    pub save_images: bool,
}

/// The numbers that the escape-path algorithm works with.
#[derive(Clone, Copy, Debug)]
pub struct CalculationConfig<S> {
    /// A path is recorded only if more of its points than this lie inside
    /// the area.
    pub iteration_min: u32,
    /// A point that has not escaped after this many steps counts as bounded.
    pub iteration_max: u32,
    /// A point has escaped once its squared distance from zero is no longer
    /// below this.
    pub boundary: S,
}

/// What the engine hands on to whoever shows and stores the result.
#[derive(Clone, Copy, Debug)]
pub struct ResultConfig {
    pub resolution_multiplier: ResolutionMultiplier,
    pub repeat: bool,
    pub save_images: bool,
}

/// A fractal family: the recurrence that takes an iteration state one step
/// further. This is the one place where fractals differ; the escape-path
/// algorithm is the same for all of them.
pub trait Math<S: Scalar> {
    /// What an iteration carries from step to step.
    type Mem: MemType<S>;

    /// The state that the iteration of the point `(origin_re, origin_im)`
    /// starts from.
    spec fn spec_new_mem(&self, origin_re: S, origin_im: S) -> Self::Mem;

    /// The state one step after `m`.
    spec fn spec_math(&self, m: Self::Mem, origin_re: S, origin_im: S) -> Self::Mem;

    fn new_mem(&self, origin_re: S, origin_im: S) -> (m: Self::Mem)
        ensures
            m == self.spec_new_mem(origin_re, origin_im),
    ;

    /// Advances `m` by exactly one step of the recurrence.
    fn math(&self, m: &mut Self::Mem, origin_re: S, origin_im: S)
        ensures
            *final(m) == self.spec_math(*old(m), origin_re, origin_im),
    ;
}

/// The quadratic family: `z -> z * z + origin`.
pub struct NebulaSide {
    pub name: String,
}

impl<S: Scalar> Math<S> for NebulaSide {
    type Mem = Mem<S>;

    open spec fn spec_new_mem(&self, origin_re: S, origin_im: S) -> Mem<S> {
        Mem { re: origin_re, im: origin_im }
    }

    open spec fn spec_math(&self, m: Mem<S>, origin_re: S, origin_im: S) -> Mem<S> {
        m.spec_square().spec_plus(origin_re, origin_im)
    }

    fn new_mem(&self, origin_re: S, origin_im: S) -> (m: Mem<S>) {
        Mem::new(origin_re, origin_im)
    }

    fn math(&self, m: &mut Mem<S>, origin_re: S, origin_im: S) {
        m.square();
        m.plus(origin_re, origin_im);
    }
}

/// A second-order family: `z -> z * z + c + p * w + origin`, where `w` is the
/// value two steps back, each value taken before the origin is added to it.
pub struct GloriousHead<S> {
    pub name: String,
    /// The constant added at every step.
    pub c: S,
    /// The weight of the value two steps back.
    pub p: S,
    /// What stands for the values of the steps before the first one.
    pub phoenix_initializer: S,
}

/// One step of the second-order recurrence from `mp` for the point
/// `(origin_re, origin_im)`.
pub open spec fn phoenix_step<S: Scalar>(mp: MemPhoenix<S>, origin_re: S, origin_im: S)
    -> MemPhoenix<S> {
    let squared = mp.m.spec_square();
    let re = squared.re.spec_plus(mp.c).spec_plus(mp.p.spec_times(mp.prev_prev_re));
    let im = squared.im.spec_plus(mp.p.spec_times(mp.prev_prev_im));
    MemPhoenix {
        m: (Mem { re, im }).spec_plus(origin_re, origin_im),
        c: mp.c,
        p: mp.p,
        prev_prev_re: mp.prev_re,
        prev_prev_im: mp.prev_im,
        prev_re: re,
        prev_im: im,
    }
}

impl<S: Scalar> Math<S> for GloriousHead<S> {
    type Mem = MemPhoenix<S>;

    open spec fn spec_new_mem(&self, origin_re: S, origin_im: S) -> MemPhoenix<S> {
        MemPhoenix {
            m: Mem { re: origin_re, im: origin_im },
            c: self.c,
            p: self.p,
            prev_prev_re: self.phoenix_initializer,
            prev_prev_im: self.phoenix_initializer,
            prev_re: self.phoenix_initializer,
            prev_im: self.phoenix_initializer,
        }
    }

    open spec fn spec_math(&self, mp: MemPhoenix<S>, origin_re: S, origin_im: S) -> MemPhoenix<S> {
        phoenix_step(mp, origin_re, origin_im)
    }

    fn new_mem(&self, origin_re: S, origin_im: S) -> (mp: MemPhoenix<S>) {
        MemPhoenix {
            m: Mem::new(origin_re, origin_im),
            c: self.c,
            p: self.p,
            prev_prev_re: self.phoenix_initializer,
            prev_prev_im: self.phoenix_initializer,
            prev_re: self.phoenix_initializer,
            prev_im: self.phoenix_initializer,
        }
    }

    fn math(&self, mp: &mut MemPhoenix<S>, origin_re: S, origin_im: S) {
        mp.m.square();

        mp.m.re = mp.m.re.plus(mp.c);
        mp.m.re = mp.m.re.plus(mp.p.times(mp.prev_prev_re));
        mp.m.im = mp.m.im.plus(mp.p.times(mp.prev_prev_im));

        // previous iteration
        mp.prev_prev_re = mp.prev_re;
        mp.prev_prev_im = mp.prev_im;
        mp.prev_re = mp.m.re;
        mp.prev_im = mp.m.im;

        mp.m.plus(origin_re, origin_im);
    }
}

} // verus!
