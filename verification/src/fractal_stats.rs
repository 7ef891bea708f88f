//! Frame statistics: the counters of the frame being calculated, the baseline
//! captured at one reference frame, and the signals that compare the two.

use vstd::prelude::*;
use crate::domain_element::{DomainElement, DomainElementState};
use crate::result_pixels::{sum_column, sum_grid, ResultPixels};

verus! {

/// Whether the baseline has been captured yet.
#[derive(Clone, Copy, Debug, PartialEq, Eq, Structural)]
pub enum StatsPhase {
    BaselinePending,
    BaselineCaptured,
}

pub struct Stats {
    pub new_elements_too_long: i32,
    pub new_elements_too_short: i32,
    pub new_elements_long: i32,
    /// All paths, those of earlier calculations included.
    pub paths_total_amount: i32,
    pub paths_new_points_amount: i32,
    pub pixels_value_total: i32,
    pub pixels_value_best: i32,
    pub not_enough_pixels_total_value: bool,
    pub less_pixels_total_value: bool,
    pub too_many_pixels_total_value: bool,
    pub not_enough_pixels_best_value: bool,
    pub less_pixels_best_value: bool,
    pub too_many_paths_total: bool,
    pub not_enough_long_elements: bool,
    pub new_elements_long_measure: i32,
    pub new_elements_long_tolerance: i32,
    pub paths_total_amount_measure: i32,
    pub paths_total_amount_tolerance: i32,
    pub pixels_value_total_measure: i32,
    pub pixels_value_total_tolerance: i32,
    pub pixels_value_best_measure: i32,
    pub pixels_value_best_tolerance: i32,
    pub average_path_length_measure: i32,
    /// The frame at which the baseline is captured.
    pub take_measures_at_frame: u32,
    pub phase: StatsPhase,
}

/// Half of `measure`, rounded toward zero: the tolerance kept for a baseline
/// value.
pub open spec fn tolerance_of(measure: int) -> int {
    if measure >= 0 {
        measure / 2
    } else {
        -((-measure) / 2)
    }
}

/// `total / amount` rounded toward zero and kept within the range of `i32`;
/// zero where `amount` is zero.
pub open spec fn average_of(total: int, amount: int) -> int {
    if amount == 0 {
        0
    } else {
        let magnitude = (if total >= 0 { total } else { -total })
            / (if amount >= 0 { amount } else { -amount });
        let quotient = if (total < 0) == (amount < 0) { magnitude } else { -magnitude };
        if quotient > i32::MAX { i32::MAX as int } else { quotient }
    }
}

/// `current` lies below `measure` by more than `tolerance`.
pub open spec fn falls_short(current: int, measure: int, tolerance: int) -> bool {
    current < measure && measure - current > tolerance
}

/// `current` lies above `measure` by more than `tolerance`.
pub open spec fn exceeds(current: int, measure: int, tolerance: int) -> bool {
    current > measure && current - measure > tolerance
}

/// A counter that stood at `counter` after `more` were counted: a counter
/// stops counting at the largest number it can hold.
pub open spec fn counted(counter: int, more: int) -> i32 {
    if counter + more > i32::MAX {
        i32::MAX
    } else {
        (counter + more) as i32
    }
}

/// How many of `elements` are in `state`.
pub open spec fn count_state<S>(elements: Seq<DomainElement<S>>, state: DomainElementState)
    -> nat
    decreases elements.len(),
{
    if elements.len() == 0 {
        0
    } else {
        count_state(elements.drop_last(), state) + if elements.last().state == state {
            1nat
        } else {
            0nat
        }
    }
}

/// How many points `paths` hold, all together.
pub open spec fn count_points<S>(paths: Seq<Vec<[S; 2]>>) -> nat
    decreases paths.len(),
{
    if paths.len() == 0 {
        0
    } else {
        count_points(paths.drop_last()) + paths.last().len() as nat
    }
}

/// `counter` and `more` more, held in a counter.
fn count_on(counter: i32, more: usize) -> (sum: i32)
    ensures
        sum == counted(counter as int, more as int),
{
    let sum: i128 = counter as i128 + more as i128;
    if sum > i32::MAX as i128 {
        i32::MAX
    } else {
        sum as i32
    }
}

fn tolerance(measure: i32) -> (t: i32)
    ensures
        t == tolerance_of(measure as int),
{
    let wide: i64 = measure as i64;
    if wide >= 0 {
        (wide / 2) as i32
    } else {
        (-((-wide) / 2)) as i32
    }
}

fn average(total: i32, amount: i32) -> (a: i32)
    ensures
        a == average_of(total as int, amount as int),
{
    if amount == 0 {
        return 0;
    }
    let t: i64 = if total >= 0 { total as i64 } else { -(total as i64) };
    let n: i64 = if amount >= 0 { amount as i64 } else { -(amount as i64) };
    let magnitude: i64 = t / n;
    assert(0 <= magnitude <= t) by (nonlinear_arith)
        requires
            magnitude == t / n,
            t >= 0,
            n >= 1,
    ;
    let quotient: i64 = if (total < 0) == (amount < 0) { magnitude } else { -magnitude };
    if quotient > i32::MAX as i64 {
        i32::MAX
    } else {
        quotient as i32
    }
}

fn is_short(current: i32, measure: i32, tolerance: i32) -> (b: bool)
    ensures
        b == falls_short(current as int, measure as int, tolerance as int),
{
    current < measure && measure as i64 - current as i64 > tolerance as i64
}

fn is_excess(current: i32, measure: i32, tolerance: i32) -> (b: bool)
    ensures
        b == exceeds(current as int, measure as int, tolerance as int),
{
    current > measure && current as i64 - measure as i64 > tolerance as i64
}

impl Stats {
    /// What `clean` leaves: the counters of the frame at zero, all else kept.
    pub open spec fn spec_clean(self) -> Stats {
        Stats {
            new_elements_too_long: 0,
            new_elements_too_short: 0,
            new_elements_long: 0,
            paths_total_amount: 0,
            pixels_value_total: 0,
            pixels_value_best: 0,
            paths_new_points_amount: 0,
            ..self
        }
    }

    /// What `remember_this` leaves: the counters copied into the baseline,
    /// each tolerance half of its baseline value, the phase captured.
    pub open spec fn spec_remember_this(self) -> Stats {
        Stats {
            new_elements_long_measure: self.new_elements_long,
            pixels_value_total_measure: self.pixels_value_total,
            paths_total_amount_measure: self.paths_total_amount,
            pixels_value_best_measure: self.pixels_value_best,
            average_path_length_measure: average_of(
                self.pixels_value_total as int,
                self.paths_total_amount as int,
            ) as i32,
            new_elements_long_tolerance: tolerance_of(self.new_elements_long as int) as i32,
            pixels_value_total_tolerance: tolerance_of(self.pixels_value_total as int) as i32,
            paths_total_amount_tolerance: tolerance_of(self.paths_total_amount as int) as i32,
            pixels_value_best_tolerance: tolerance_of(self.pixels_value_best as int) as i32,
            phase: StatsPhase::BaselineCaptured,
            ..self
        }
    }

    /// What a comparison leaves: every signal recomputed from the counters
    /// and the baseline, nothing else touched.
    pub open spec fn spec_compare(self) -> Stats {
        Stats {
            not_enough_pixels_total_value: falls_short(
                self.pixels_value_total as int,
                self.pixels_value_total_measure as int,
                self.pixels_value_total_tolerance as int,
            ),
            too_many_pixels_total_value: exceeds(
                self.pixels_value_total as int,
                self.pixels_value_total_measure as int,
                self.pixels_value_total_tolerance as int,
            ),
            less_pixels_total_value: self.pixels_value_total < self.pixels_value_total_measure,
            not_enough_pixels_best_value: falls_short(
                self.pixels_value_best as int,
                self.pixels_value_best_measure as int,
                self.pixels_value_best_tolerance as int,
            ),
            less_pixels_best_value: self.pixels_value_best < self.pixels_value_best_measure,
            too_many_paths_total: exceeds(
                self.paths_total_amount as int,
                self.paths_total_amount_measure as int,
                self.paths_total_amount_tolerance as int,
            ),
            not_enough_long_elements: falls_short(
                self.new_elements_long as int,
                self.new_elements_long_measure as int,
                self.new_elements_long_tolerance as int,
            ),
            ..self
        }
    }

    /// What `update` leaves after frame `it`.
    pub open spec fn spec_update(self, it: u32) -> Stats {
        if it == self.take_measures_at_frame {
            if self.phase == StatsPhase::BaselinePending {
                self.spec_remember_this()
            } else {
                self
            }
        } else if it > self.take_measures_at_frame {
            self.spec_compare()
        } else {
            self
        }
    }

    /// Statistics with every counter, signal and baseline value at rest and
    /// the baseline pending, to be captured at frame `take_measures_at_frame`.
    pub fn new(take_measures_at_frame: u32) -> (stats: Stats)
        ensures
            stats == (Stats {
                new_elements_too_long: 0,
                new_elements_too_short: 0,
                new_elements_long: 0,
                paths_total_amount: 0,
                paths_new_points_amount: 0,
                pixels_value_total: 0,
                pixels_value_best: 0,
                not_enough_pixels_total_value: false,
                less_pixels_total_value: false,
                too_many_pixels_total_value: false,
                not_enough_pixels_best_value: false,
                less_pixels_best_value: false,
                too_many_paths_total: false,
                not_enough_long_elements: false,
                new_elements_long_measure: 0,
                new_elements_long_tolerance: 0,
                paths_total_amount_measure: 0,
                paths_total_amount_tolerance: 0,
                pixels_value_total_measure: 0,
                pixels_value_total_tolerance: 0,
                pixels_value_best_measure: 0,
                pixels_value_best_tolerance: 0,
                average_path_length_measure: 0,
                take_measures_at_frame,
                phase: StatsPhase::BaselinePending,
            }),
    {
        Stats {
            new_elements_too_long: 0,
            new_elements_too_short: 0,
            new_elements_long: 0,
            paths_total_amount: 0,
            paths_new_points_amount: 0,
            pixels_value_total: 0,
            pixels_value_best: 0,
            not_enough_pixels_total_value: false,
            less_pixels_total_value: false,
            too_many_pixels_total_value: false,
            not_enough_pixels_best_value: false,
            less_pixels_best_value: false,
            too_many_paths_total: false,
            not_enough_long_elements: false,
            new_elements_long_measure: 0,
            new_elements_long_tolerance: 0,
            paths_total_amount_measure: 0,
            paths_total_amount_tolerance: 0,
            pixels_value_total_measure: 0,
            pixels_value_total_tolerance: 0,
            pixels_value_best_measure: 0,
            pixels_value_best_tolerance: 0,
            average_path_length_measure: 0,
            take_measures_at_frame,
            phase: StatsPhase::BaselinePending,
        }
    }

    /// Captures the baseline from the counters of the current frame.
    pub fn remember_this(&mut self)
        ensures
            *final(self) == old(self).spec_remember_this(),
    {
        self.new_elements_long_measure = self.new_elements_long;
        self.pixels_value_total_measure = self.pixels_value_total;
        self.paths_total_amount_measure = self.paths_total_amount;
        self.pixels_value_best_measure = self.pixels_value_best;
        self.average_path_length_measure = average(
            self.pixels_value_total,
            self.paths_total_amount,
        );

        self.new_elements_long_tolerance = tolerance(self.new_elements_long_measure);
        self.pixels_value_total_tolerance = tolerance(self.pixels_value_total_measure);
        self.paths_total_amount_tolerance = tolerance(self.paths_total_amount_measure);
        self.pixels_value_best_tolerance = tolerance(self.pixels_value_best_measure);
        self.phase = StatsPhase::BaselineCaptured;
    }

    /// Takes frame `it` into account: at the reference frame the pending
    /// baseline is captured, at every later frame the signals are recomputed,
    /// before it nothing happens.
    pub fn update(&mut self, it: u32)
        ensures
            *final(self) == old(self).spec_update(it),
    {
        if it == self.take_measures_at_frame {
            match self.phase {
                StatsPhase::BaselinePending => {
                    self.remember_this();
                },
                StatsPhase::BaselineCaptured => {},
            }
        }
        if it > self.take_measures_at_frame {
            // Total value
            self.not_enough_pixels_total_value = is_short(
                self.pixels_value_total,
                self.pixels_value_total_measure,
                self.pixels_value_total_tolerance,
            );
            self.too_many_pixels_total_value = is_excess(
                self.pixels_value_total,
                self.pixels_value_total_measure,
                self.pixels_value_total_tolerance,
            );
            self.less_pixels_total_value = self.pixels_value_total
                < self.pixels_value_total_measure;

            // Best domain chunks, chunks with most image points
            self.not_enough_pixels_best_value = is_short(
                self.pixels_value_best,
                self.pixels_value_best_measure,
                self.pixels_value_best_tolerance,
            );
            self.less_pixels_best_value = self.pixels_value_best < self.pixels_value_best_measure;

            // Paths
            self.too_many_paths_total = is_excess(
                self.paths_total_amount,
                self.paths_total_amount_measure,
                self.paths_total_amount_tolerance,
            );

            // Long successful elements
            self.not_enough_long_elements = is_short(
                self.new_elements_long,
                self.new_elements_long_measure,
                self.new_elements_long_tolerance,
            );
        }
    }

    /// Counts `elements`, which a frame has calculated, by the state that the
    /// calculation left them in.
    pub fn count_elements<S>(&mut self, elements: &Vec<DomainElement<S>>)
        ensures
            *final(self) == (Stats {
                new_elements_too_long: counted(
                    old(self).new_elements_too_long as int,
                    count_state(elements@, DomainElementState::TooLong) as int,
                ),
                new_elements_too_short: counted(
                    old(self).new_elements_too_short as int,
                    count_state(elements@, DomainElementState::TooShort) as int,
                ),
                new_elements_long: counted(
                    old(self).new_elements_long as int,
                    count_state(elements@, DomainElementState::GoodPath) as int,
                ),
                ..*old(self)
            }),
    {
        let mut i: usize = 0;
        while i < elements.len()
            invariant
                i <= elements.len(),
                *self == (Stats {
                    new_elements_too_long: counted(
                        old(self).new_elements_too_long as int,
                        count_state(elements@.take(i as int), DomainElementState::TooLong) as int,
                    ),
                    new_elements_too_short: counted(
                        old(self).new_elements_too_short as int,
                        count_state(elements@.take(i as int), DomainElementState::TooShort) as int,
                    ),
                    new_elements_long: counted(
                        old(self).new_elements_long as int,
                        count_state(elements@.take(i as int), DomainElementState::GoodPath) as int,
                    ),
                    ..*old(self)
                }),
            decreases elements.len() - i,
        {
            proof {
                assert(elements@.take(i + 1).drop_last() =~= elements@.take(i as int));
                assert(elements@.take(i + 1).last() == elements[i as int]);
            }
            match elements[i].state {
                DomainElementState::TooLong => {
                    self.new_elements_too_long = count_on(self.new_elements_too_long, 1);
                },
                DomainElementState::TooShort => {
                    self.new_elements_too_short = count_on(self.new_elements_too_short, 1);
                },
                DomainElementState::GoodPath => {
                    self.new_elements_long = count_on(self.new_elements_long, 1);
                },
                _ => {},
            }
            i += 1;
        }
        assert(elements@.take(elements.len() as int) =~= elements@);
    }

    /// Counts `paths`, which a frame has recorded, and their points.
    pub fn count_paths<S>(&mut self, paths: &Vec<Vec<[S; 2]>>)
        ensures
            *final(self) == (Stats {
                paths_total_amount: counted(
                    old(self).paths_total_amount as int,
                    paths.len() as int,
                ),
                paths_new_points_amount: counted(
                    old(self).paths_new_points_amount as int,
                    count_points(paths@) as int,
                ),
                ..*old(self)
            }),
    {
        self.paths_total_amount = count_on(self.paths_total_amount, paths.len());
        let mut i: usize = 0;
        while i < paths.len()
            invariant
                i <= paths.len(),
                *self == (Stats {
                    paths_total_amount: counted(
                        old(self).paths_total_amount as int,
                        paths.len() as int,
                    ),
                    paths_new_points_amount: counted(
                        old(self).paths_new_points_amount as int,
                        count_points(paths@.take(i as int)) as int,
                    ),
                    ..*old(self)
                }),
            decreases paths.len() - i,
        {
            proof {
                assert(paths@.take(i + 1).drop_last() =~= paths@.take(i as int));
                assert(paths@.take(i + 1).last() == paths[i as int]);
            }
            self.paths_new_points_amount = count_on(self.paths_new_points_amount, paths[i].len());
            i += 1;
        }
        assert(paths@.take(paths.len() as int) =~= paths@);
    }

    /// Counts the values of all pixels of `result_pixels`.
    pub fn count_pixels(&mut self, result_pixels: &ResultPixels)
        requires
            result_pixels.wf(),
        ensures
            *final(self) == (Stats {
                pixels_value_total: counted(
                    old(self).pixels_value_total as int,
                    sum_grid(
                        |x: int, y: int| result_pixels.value(x, y) as nat,
                        result_pixels.width as int,
                        result_pixels.height as int,
                    ) as int,
                ),
                ..*old(self)
            }),
    {
        let ghost values = |x: int, y: int| result_pixels.value(x, y) as nat;
        let ghost rows = result_pixels.height as int;
        let mut x: u32 = 0;
        while x < result_pixels.width
            invariant
                result_pixels.wf(),
                rows == result_pixels.height,
                values == |x: int, y: int| result_pixels.value(x, y) as nat,
                x <= result_pixels.width,
                *self == (Stats {
                    pixels_value_total: counted(
                        old(self).pixels_value_total as int,
                        sum_grid(values, x as int, rows) as int,
                    ),
                    ..*old(self)
                }),
            decreases result_pixels.width - x,
        {
            let ghost before = sum_grid(values, x as int, rows);
            let mut y: u32 = 0;
            while y < result_pixels.height
                invariant
                    result_pixels.wf(),
                    rows == result_pixels.height,
                    values == |x: int, y: int| result_pixels.value(x, y) as nat,
                    x < result_pixels.width,
                    y <= result_pixels.height,
                    before == sum_grid(values, x as int, rows),
                    *self == (Stats {
                        pixels_value_total: counted(
                            old(self).pixels_value_total as int,
                            (before + sum_column(values, x as int, y as int)) as int,
                        ),
                        ..*old(self)
                    }),
                decreases result_pixels.height - y,
            {
                self.pixels_value_total = count_on(
                    self.pixels_value_total,
                    result_pixels.value_at(x, y) as usize,
                );
                y += 1;
            }
            x += 1;
        }
    }

    /// Resets the counters of the frame; baseline, tolerances and signals stay.
    pub fn clean(&mut self)
        ensures
            *final(self) == old(self).spec_clean(),
    {
        self.new_elements_too_long = 0;
        self.new_elements_too_short = 0;
        self.new_elements_long = 0;
        self.paths_total_amount = 0;
        self.pixels_value_total = 0;
        self.pixels_value_best = 0;
        self.paths_new_points_amount = 0;
    }
}

/// A tolerance is half of its baseline value: exactly for an even value, and
/// with the half unit dropped toward zero for an odd one.
pub proof fn lemma_tolerance_is_half(measure: int)
    ensures
        measure % 2 == 0 ==> 2 * tolerance_of(measure) == measure,
        measure % 2 != 0 && measure > 0 ==> 2 * tolerance_of(measure) == measure - 1,
        measure % 2 != 0 && measure < 0 ==> 2 * tolerance_of(measure) == measure + 1,
{
}

/// A value raises a signal exactly when it deviates from the baseline by
/// more than the tolerance, on the side that the signal stands for.
pub proof fn lemma_signal_iff_beyond_tolerance(current: int, measure: int, tolerance: int)
    ensures
        falls_short(current, measure, tolerance) <==> (current < measure && vstd::math::abs(
            measure - current,
        ) > tolerance),
        exceeds(current, measure, tolerance) <==> (current > measure && vstd::math::abs(
            measure - current,
        ) > tolerance),
{
}

/// Once a baseline has been captured from `reference`, each tolerance is
/// half of its baseline value; and whatever the counters of a later frame
/// are, the update for that frame raises each signal exactly when its
/// counter deviates from the baseline by more than the tolerance, on the
/// side of the signal.
pub proof fn lemma_update_compares_with_baseline(reference: Stats, later: Stats, it: u32)
    requires
        it > later.take_measures_at_frame,
        later.new_elements_long_measure == reference.spec_remember_this().new_elements_long_measure,
        later.new_elements_long_tolerance
            == reference.spec_remember_this().new_elements_long_tolerance,
        later.paths_total_amount_measure
            == reference.spec_remember_this().paths_total_amount_measure,
        later.paths_total_amount_tolerance
            == reference.spec_remember_this().paths_total_amount_tolerance,
        later.pixels_value_total_measure
            == reference.spec_remember_this().pixels_value_total_measure,
        later.pixels_value_total_tolerance
            == reference.spec_remember_this().pixels_value_total_tolerance,
        later.pixels_value_best_measure == reference.spec_remember_this().pixels_value_best_measure,
        later.pixels_value_best_tolerance
            == reference.spec_remember_this().pixels_value_best_tolerance,
    ensures
        later.pixels_value_total_measure == reference.pixels_value_total,
        later.pixels_value_total_tolerance == tolerance_of(reference.pixels_value_total as int),
        later.paths_total_amount_measure == reference.paths_total_amount,
        later.paths_total_amount_tolerance == tolerance_of(reference.paths_total_amount as int),
        later.new_elements_long_measure == reference.new_elements_long,
        later.new_elements_long_tolerance == tolerance_of(reference.new_elements_long as int),
        later.pixels_value_best_measure == reference.pixels_value_best,
        later.pixels_value_best_tolerance == tolerance_of(reference.pixels_value_best as int),
        later.spec_update(it).not_enough_pixels_best_value <==> (later.pixels_value_best
            < reference.pixels_value_best && vstd::math::abs(
            reference.pixels_value_best - later.pixels_value_best,
        ) > tolerance_of(reference.pixels_value_best as int)),
        later.spec_update(it).not_enough_pixels_total_value <==> (later.pixels_value_total
            < reference.pixels_value_total && vstd::math::abs(
            reference.pixels_value_total - later.pixels_value_total,
        ) > tolerance_of(reference.pixels_value_total as int)),
        later.spec_update(it).too_many_pixels_total_value <==> (later.pixels_value_total
            > reference.pixels_value_total && vstd::math::abs(
            reference.pixels_value_total - later.pixels_value_total,
        ) > tolerance_of(reference.pixels_value_total as int)),
        later.spec_update(it).too_many_paths_total <==> (later.paths_total_amount
            > reference.paths_total_amount && vstd::math::abs(
            reference.paths_total_amount - later.paths_total_amount,
        ) > tolerance_of(reference.paths_total_amount as int)),
        later.spec_update(it).not_enough_long_elements <==> (later.new_elements_long
            < reference.new_elements_long && vstd::math::abs(
            reference.new_elements_long - later.new_elements_long,
        ) > tolerance_of(reference.new_elements_long as int)),
{
}

/// Cleaning touches the counters of the frame only: baseline, tolerances,
/// signals and phase are what they were.
pub proof fn lemma_clean_keeps_baseline(stats: Stats)
    ensures
        stats.spec_clean().new_elements_long_measure == stats.new_elements_long_measure,
        stats.spec_clean().new_elements_long_tolerance == stats.new_elements_long_tolerance,
        stats.spec_clean().paths_total_amount_measure == stats.paths_total_amount_measure,
        stats.spec_clean().paths_total_amount_tolerance == stats.paths_total_amount_tolerance,
        stats.spec_clean().pixels_value_total_measure == stats.pixels_value_total_measure,
        stats.spec_clean().pixels_value_total_tolerance == stats.pixels_value_total_tolerance,
        stats.spec_clean().pixels_value_best_measure == stats.pixels_value_best_measure,
        stats.spec_clean().pixels_value_best_tolerance == stats.pixels_value_best_tolerance,
        stats.spec_clean().average_path_length_measure == stats.average_path_length_measure,
        stats.spec_clean().phase == stats.phase,
        stats.spec_clean().take_measures_at_frame == stats.take_measures_at_frame,
{
}

} // verus!
