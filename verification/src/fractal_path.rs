//! What the escape-path algorithm finds for a sample point: how far its
//! iteration goes, which path it takes through the area, and what that makes
//! of the point.

use vstd::prelude::*;
use crate::area::Area;
use crate::domain_element::{DomainElement, DomainElementState};
use crate::fractal::{CalculationConfig, Math};
use crate::mem::{quadrance_of, MemType};
use crate::scalar::Scalar;

verus! {

/// The iteration state of the point `(re, im)` after `steps` steps.
pub open spec fn orbit<S: Scalar, F: Math<S>>(math: F, re: S, im: S, steps: nat) -> F::Mem
    decreases steps,
{
    if steps == 0 {
        math.spec_new_mem(re, im)
    } else {
        math.spec_math(orbit(math, re, im, (steps - 1) as nat), re, im)
    }
}

/// Whether the iteration of `(re, im)` takes another step after `steps`: its
/// state is still within the boundary, and the cap is not reached.
pub open spec fn goes_on<S: Scalar, F: Math<S>>(
    math: F,
    config: CalculationConfig<S>,
    re: S,
    im: S,
    steps: nat,
) -> bool {
    let m = orbit(math, re, im, steps);
    quadrance_of(m.spec_re(), m.spec_im()).spec_less_than(config.boundary) && steps
        < config.iteration_max
}

/// The number of steps at which the iteration of `(re, im)` stops, given that
/// it has come as far as `steps`.
pub open spec fn iterator_from<S: Scalar, F: Math<S>>(
    math: F,
    config: CalculationConfig<S>,
    re: S,
    im: S,
    steps: nat,
) -> nat
    decreases config.iteration_max - steps,
{
    if goes_on(math, config, re, im, steps) {
        iterator_from(math, config, re, im, steps + 1)
    } else {
        steps
    }
}

/// The states that the first `steps` steps of the iteration of `(re, im)`
/// reach inside `area`, in the order of the steps.
pub open spec fn path_within<S: Scalar, F: Math<S>>(
    math: F,
    area: Area<S>,
    re: S,
    im: S,
    steps: nat,
) -> Seq<[S; 2]>
    decreases steps,
{
    if steps == 0 {
        Seq::empty()
    } else {
        let m = orbit(math, re, im, steps);
        let before = path_within(math, area, re, im, (steps - 1) as nat);
        if area.spec_contains(m.spec_re(), m.spec_im()) {
            before.push([m.spec_re(), m.spec_im()])
        } else {
            before
        }
    }
}

/// The iteration stops at the first step count at which it does not go on,
/// and nowhere else.
pub proof fn lemma_iterator_is_first_stop<S: Scalar, F: Math<S>>(
    math: F,
    config: CalculationConfig<S>,
    re: S,
    im: S,
    steps: nat,
)
    requires
        steps <= config.iteration_max,
    ensures
        steps <= iterator_from(math, config, re, im, steps) <= config.iteration_max,
        !goes_on(math, config, re, im, iterator_from(math, config, re, im, steps)),
        forall|k: nat|
            steps <= k < iterator_from(math, config, re, im, steps) ==> goes_on(
                math,
                config,
                re,
                im,
                k,
            ),
    decreases config.iteration_max - steps,
{
    if goes_on(math, config, re, im, steps) {
        lemma_iterator_is_first_stop(math, config, re, im, steps + 1);
    }
}

/// No more points lie on a path than steps were taken.
pub proof fn lemma_path_within_is_short<S: Scalar, F: Math<S>>(
    math: F,
    area: Area<S>,
    re: S,
    im: S,
    steps: nat,
)
    ensures
        path_within(math, area, re, im, steps).len() <= steps,
    decreases steps,
{
    if steps > 0 {
        lemma_path_within_is_short(math, area, re, im, (steps - 1) as nat);
    }
}

/// The number of steps that the iteration of `el` takes.
pub open spec fn iterator_of<S: Scalar, F: Math<S>>(
    math: F,
    config: CalculationConfig<S>,
    el: DomainElement<S>,
) -> nat {
    iterator_from(math, config, el.origin_re, el.origin_im, 0)
}

/// The path of `el`: the states of its iteration that lie inside `area`.
pub open spec fn path_of<S: Scalar, F: Math<S>>(
    math: F,
    area: Area<S>,
    config: CalculationConfig<S>,
    el: DomainElement<S>,
) -> Seq<[S; 2]> {
    path_within(math, area, el.origin_re, el.origin_im, iterator_of(math, config, el))
}

/// Whether the path of `el` is recorded: it is longer than the minimum, and
/// the iteration escaped before the cap.
pub open spec fn is_recorded<S: Scalar, F: Math<S>>(
    math: F,
    area: Area<S>,
    config: CalculationConfig<S>,
    el: DomainElement<S>,
) -> bool {
    &&& path_of(math, area, config, el).len() > config.iteration_min
    &&& iterator_of(math, config, el) < config.iteration_max
}

/// What the calculation of `el` adds to the paths of the frame: its path
/// where that is recorded, nothing otherwise.
pub open spec fn recorded_paths<S: Scalar, F: Math<S>>(
    math: F,
    area: Area<S>,
    config: CalculationConfig<S>,
    el: DomainElement<S>,
) -> Seq<Seq<[S; 2]>> {
    if is_recorded(math, area, config, el) {
        seq![path_of(math, area, config, el)]
    } else {
        Seq::empty()
    }
}

/// `el` after its calculation: classified by the steps its iteration took
/// and by the length of its path.
pub open spec fn finished<S: Scalar, F: Math<S>>(
    math: F,
    area: Area<S>,
    config: CalculationConfig<S>,
    el: DomainElement<S>,
) -> DomainElement<S> {
    el.spec_set_finished_state(
        iterator_of(math, config, el) as u32,
        path_of(math, area, config, el).len() as u32,
        config.iteration_min,
        config.iteration_max,
    )
}

/// `el` after a frame: calculated where it was active, untouched where not.
pub open spec fn calculated<S: Scalar, F: Math<S>>(
    math: F,
    area: Area<S>,
    config: CalculationConfig<S>,
    el: DomainElement<S>,
) -> DomainElement<S> {
    if el.state.spec_is_active() {
        finished(math, area, config, el)
    } else {
        el
    }
}

/// `elements` after a frame, each in its place.
pub open spec fn calculated_chunk<S: Scalar, F: Math<S>>(
    math: F,
    area: Area<S>,
    config: CalculationConfig<S>,
    elements: Seq<DomainElement<S>>,
) -> Seq<DomainElement<S>> {
    Seq::new(elements.len(), |i: int| calculated(math, area, config, elements[i]))
}

/// The paths that the calculation of `elements` records, in the order of the
/// elements. Only active elements are calculated.
pub open spec fn chunk_paths<S: Scalar, F: Math<S>>(
    math: F,
    area: Area<S>,
    config: CalculationConfig<S>,
    elements: Seq<DomainElement<S>>,
) -> Seq<Seq<[S; 2]>>
    decreases elements.len(),
{
    if elements.len() == 0 {
        Seq::empty()
    } else {
        chunk_paths(math, area, config, elements.drop_last()) + if elements.last().state.spec_is_active() {
            recorded_paths(math, area, config, elements.last())
        } else {
            Seq::empty()
        }
    }
}

/// `elements`, each marked for calculation.
pub open spec fn activated<S>(elements: Seq<DomainElement<S>>) -> Seq<DomainElement<S>> {
    Seq::new(elements.len(), |i: int| elements[i].spec_activated())
}

/// A point that lies past the boundary from the start takes no step: its
/// calculation ends at once, and it is classified as too short.
pub proof fn lemma_escaped_origin_is_too_short<S: Scalar, F: Math<S>>(
    math: F,
    area: Area<S>,
    config: CalculationConfig<S>,
    el: DomainElement<S>,
)
    requires
        config.iteration_max > 0,
        !quadrance_of(
            math.spec_new_mem(el.origin_re, el.origin_im).spec_re(),
            math.spec_new_mem(el.origin_re, el.origin_im).spec_im(),
        ).spec_less_than(config.boundary),
    ensures
        iterator_of(math, config, el) == 0,
        path_of(math, area, config, el).len() == 0,
        !is_recorded(math, area, config, el),
        finished(math, area, config, el).state == DomainElementState::TooShort,
{
}

/// A point is recorded exactly when its calculation classifies it as a good
/// path.
pub proof fn lemma_recorded_iff_good_path<S: Scalar, F: Math<S>>(
    math: F,
    area: Area<S>,
    config: CalculationConfig<S>,
    el: DomainElement<S>,
)
    ensures
        is_recorded(math, area, config, el) <==> finished(math, area, config, el).state
            == DomainElementState::GoodPath,
{
    lemma_iterator_is_first_stop(math, config, el.origin_re, el.origin_im, 0);
    lemma_path_within_is_short(
        math,
        area,
        el.origin_re,
        el.origin_im,
        iterator_of(math, config, el),
    );
}

} // verus!
