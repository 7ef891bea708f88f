//! One sample point of the grid, and how its calculation is classified.

use vstd::prelude::*;

verus! {

/// Where a sample point stands. A point is calculated while it is
/// [`ActiveNew`](DomainElementState::ActiveNew) or
/// [`Active`](DomainElementState::Active); a calculation leaves it
/// [`TooLong`](DomainElementState::TooLong),
/// [`TooShort`](DomainElementState::TooShort) or
/// [`GoodPath`](DomainElementState::GoodPath).
#[derive(Clone, Copy, Debug, PartialEq, Eq, Structural)]
pub enum DomainElementState {
    /// Created and not calculated yet.
    ActiveNew,
    /// Marked for another calculation.
    Active,
    /// Set aside; not calculated until marked active again.
    Hibernated,
    /// Escaped after a path long enough to be recorded.
    GoodPath,
    /// Done with; no further calculation is wanted.
    Finished,
    /// Escaped, but its path is at or below the minimum length.
    TooShort,
    /// Reached the iteration cap without escaping: bounded, in the set.
    TooLong,
}

/// The classification rule: a calculation that used `iteration_max` steps did
/// not escape; one that escaped with at most `iteration_min` steps inside the
/// area is too short; any other is a good path.
pub open spec fn spec_state_from_path_length(
    iterator: u32,
    length: u32,
    iteration_min: u32,
    iteration_max: u32,
) -> DomainElementState {
    if iterator >= iteration_max {
        DomainElementState::TooLong
    } else if length <= iteration_min {
        DomainElementState::TooShort
    } else {
        DomainElementState::GoodPath
    }
}

/// Classifies a calculation that took `iterator` steps, `length` of them
/// inside the area.
pub fn state_from_path_length(
    iterator: u32,
    length: u32,
    iteration_min: u32,
    iteration_max: u32,
) -> (state: DomainElementState)
    ensures
        state == spec_state_from_path_length(iterator, length, iteration_min, iteration_max),
{
    if iterator >= iteration_max {
        DomainElementState::TooLong
    } else if length <= iteration_min {
        DomainElementState::TooShort
    } else {
        DomainElementState::GoodPath
    }
}

impl DomainElementState {
    pub open spec fn spec_is_active(self) -> bool {
        self == DomainElementState::ActiveNew || self == DomainElementState::Active
    }

    /// Whether a point in this state is calculated in the next frame.
    pub fn is_active(&self) -> (b: bool)
        ensures
            b == self.spec_is_active(),
    {
        match self {
            DomainElementState::ActiveNew => true,
            DomainElementState::Active => true,
            _ => false,
        }
    }
}

/// A sample point: where it lies, where it stands, and what its last
/// calculation found.
#[derive(Clone, Copy, Debug)]
pub struct DomainElement<S> {
    pub origin_re: S,
    pub origin_im: S,
    pub state: DomainElementState,
    /// Steps taken by the last calculation.
    pub iterator: u32,
    /// Steps of the last calculation that stayed inside the area.
    pub length: u32,
}

impl<S> DomainElement<S> {
    /// The element after a calculation of `iterator` steps, `length` of them
    /// inside the area: same origin, the outcome kept, the state classified.
    pub open spec fn spec_set_finished_state(
        self,
        iterator: u32,
        length: u32,
        iteration_min: u32,
        iteration_max: u32,
    ) -> Self {
        DomainElement {
            origin_re: self.origin_re,
            origin_im: self.origin_im,
            state: spec_state_from_path_length(iterator, length, iteration_min, iteration_max),
            iterator,
            length,
        }
    }

    /// A point at `(origin_re, origin_im)`, not calculated yet.
    pub open spec fn spec_new(origin_re: S, origin_im: S) -> Self {
        DomainElement {
            origin_re,
            origin_im,
            state: DomainElementState::ActiveNew,
            iterator: 0,
            length: 0,
        }
    }

    pub fn new(origin_re: S, origin_im: S) -> (el: Self)
        ensures
            el == Self::spec_new(origin_re, origin_im),
    {
        DomainElement {
            origin_re,
            origin_im,
            state: DomainElementState::ActiveNew,
            iterator: 0,
            length: 0,
        }
    }

    pub fn is_active(&self) -> (b: bool)
        ensures
            b == self.state.spec_is_active(),
    {
        self.state.is_active()
    }

    /// The element marked for calculation: as it is where it is active
    /// already, and `Active` with all else kept where it is not.
    pub open spec fn spec_activated(self) -> Self {
        if self.state.spec_is_active() {
            self
        } else {
            DomainElement {
                origin_re: self.origin_re,
                origin_im: self.origin_im,
                state: DomainElementState::Active,
                iterator: self.iterator,
                length: self.length,
            }
        }
    }

    /// Marks the point for calculation in the next frame.
    pub fn activate(&mut self)
        ensures
            *final(self) == old(self).spec_activated(),
    {
        if !self.state.is_active() {
            self.state = DomainElementState::Active;
        }
    }

    /// Records the outcome of a calculation and classifies the point by it.
    pub fn set_finished_state(
        &mut self,
        iterator: u32,
        length: u32,
        iteration_min: u32,
        iteration_max: u32,
    )
        ensures
            *final(self) == old(self).spec_set_finished_state(
                iterator,
                length,
                iteration_min,
                iteration_max,
            ),
    {
        self.state = state_from_path_length(iterator, length, iteration_min, iteration_max);
        self.iterator = iterator;
        self.length = length;
    }
}

/// With the step count and both thresholds fixed, a longer stay inside the
/// area never turns a good path into one that is too short.
pub proof fn lemma_longer_path_stays_good(
    iterator: u32,
    length: u32,
    longer: u32,
    iteration_min: u32,
    iteration_max: u32,
)
    requires
        length <= longer,
        spec_state_from_path_length(iterator, length, iteration_min, iteration_max)
            == DomainElementState::GoodPath,
    ensures
        spec_state_from_path_length(iterator, longer, iteration_min, iteration_max)
            == DomainElementState::GoodPath,
{
}

/// A calculation that used every step up to the cap is classified as bounded,
/// whatever its length.
pub proof fn lemma_capped_is_too_long(
    iterator: u32,
    length: u32,
    iteration_min: u32,
    iteration_max: u32,
)
    requires
        iterator == iteration_max,
    ensures
        spec_state_from_path_length(iterator, length, iteration_min, iteration_max)
            == DomainElementState::TooLong,
{
}

} // verus!
