//! The calculation of one frame: the escape-path algorithm run on every
//! sample point, chunk by chunk, and the paths it records.

use vstd::prelude::*;
use vstd::seq_lib::lemma_fold_left_permutation;
use crate::area::Area;
use crate::chunk::{
    chunk_index, lemma_chunk_position, lemma_chunk_within_axis, lemma_one_chunk_holds_position,
    reached,
};
use crate::domain::Domain;
use crate::domain_element::{DomainElement, DomainElementState};
use crate::fractal::{CalculationConfig, FractalConfig, FractalDefinition, Math, ResultConfig};
use crate::fractal_path::{
    activated, calculated, calculated_chunk, chunk_paths, finished, iterator_from, orbit,
    path_within, recorded_paths,
};
use crate::mem::MemType;
use crate::result_data::{hits, is_histogram, lemma_hits_of_merged, ResultData};
use crate::result_pixels::{saturated, ResultPixels};
use crate::scalar::Scalar;
use crate::shuffle::{holds_every_chunk_once, ordered_coordinates};

verus! {

/// Calculates a single image.
pub struct Machine<S> {
    pub area: Area<S>,
    pub domain: Domain<S>,
    pub calculation_config: CalculationConfig<S>,
    pub result_config: ResultConfig,
}

/// Why a configuration is refused.
#[derive(Clone, Copy, Debug, PartialEq, Eq, Structural)]
pub enum ConfigError {
    /// The iteration cap is not above the minimum path length.
    IterationBounds,
    /// The grid has no pixel, or the span leaves a pixel without extent.
    EmptyArea,
    /// The grid is to be divided into no chunks.
    NoChunks,
}

/// What the calculation of one chunk hands back to the frame.
pub struct ChunkResult<S> {
    /// The chunk that was calculated.
    pub xy: [u32; 2],
    /// Its elements as the calculation left them, in the order of the chunk.
    pub elements: Vec<DomainElement<S>>,
    /// The paths that were recorded.
    pub paths: ResultData<S>,
}

/// How many points of the paths of the first `count` of `results` are
/// mapped to the pixel at column `x`, row `y`, each path by the area that
/// came with it.
pub open spec fn spec_result_hits<S: Scalar>(
    results: Seq<ChunkResult<S>>,
    count: nat,
    x: int,
    y: int,
) -> nat
    decreases count,
{
    if count == 0 {
        0
    } else {
        spec_result_hits(results, (count - 1) as nat, x, y) + hits(
            results[count - 1].paths.area_result,
            results[count - 1].paths@,
            x,
            y,
        )
    }
}

/// Where every point of a grid has been marked for calculation, each chunk
/// of the grid holds the marked elements of the chunk before.
proof fn lemma_chunk_of_activated<S: Scalar>(before: Domain<S>, after: Domain<S>, xy: [u32; 2])
    requires
        before.wf(),
        after.width == before.width,
        after.height == before.height,
        after.chunks == before.chunks,
        xy[0] < before.chunks,
        xy[1] < before.chunks,
        forall|x: int, y: int|
            0 <= x < before.width && 0 <= y < before.height ==> #[trigger] after.element(x, y)
                == before.element(x, y).spec_activated(),
    ensures
        after.spec_chunk_elements(xy) == activated(before.spec_chunk_elements(xy)),
{
    let bounds = before.spec_chunk_bounds(xy);
    let columns = bounds.1 - bounds.0;
    let rows = bounds.3 - bounds.2;
    lemma_chunk_within_axis(before.width as int, before.chunks as int, xy[0] as int);
    lemma_chunk_within_axis(before.height as int, before.chunks as int, xy[1] as int);
    let marked = activated(before.spec_chunk_elements(xy));
    let held = after.spec_chunk_elements(xy);
    assert(columns * rows >= 0) by (nonlinear_arith)
        requires
            columns >= 0,
            rows >= 0,
    ;
    assert forall|k: int| 0 <= k < held.len() implies held[k] == marked[k] by {
        lemma_chunk_position(k, columns, rows);
        assert(held[k] == after.element(bounds.0 + k / rows, bounds.2 + k % rows));
    }
    assert(held =~= marked);
}

impl<S: Scalar> Machine<S> {
    /// Area and grid are well formed and of one size, and the iteration
    /// bounds are in order.
    pub open spec fn wf(self) -> bool {
        &&& self.area.wf()
        &&& self.domain.wf()
        &&& self.domain.width == self.area.width_x
        &&& self.domain.height == self.area.height_y
        &&& self.calculation_config.iteration_min < self.calculation_config.iteration_max
    }

    /// The machine for `definition` and `config`: the area laid out, one
    /// fresh point per pixel, `boundary` as the escape boundary, the grid
    /// divided into `chunks` chunks along each axis, calculation orders drawn
    /// from `seed`. Degenerate configurations are refused here, so that a
    /// calculation never meets one.
    pub fn new(
        definition: &FractalDefinition<S>,
        config: &FractalConfig,
        boundary: S,
        chunks: u32,
        seed: u64,
    ) -> (machine: Result<Machine<S>, ConfigError>)
        ensures
            match machine {
                Ok(m) => {
                    &&& definition.iteration_min < definition.iteration_max
                    &&& chunks > 0
                    &&& m.wf()
                    &&& Some(m.area) == Area::spec_new(
                        definition.area_size,
                        definition.target_re,
                        definition.target_im,
                        config.resolution_width,
                        config.resolution_height,
                    )
                    &&& m.calculation_config == (CalculationConfig {
                        iteration_min: definition.iteration_min,
                        iteration_max: definition.iteration_max,
                        boundary,
                    })
                    &&& m.result_config == (ResultConfig {
                        resolution_multiplier: config.resolution_multiplier,
                        repeat: config.repeat,
                        save_images: config.save_images,
                    })
                    &&& m.domain.chunks == chunks
                    &&& m.domain.seed == seed
                    &&& forall|x: int, y: int|
                        0 <= x < m.domain.width && 0 <= y < m.domain.height ==> {
                            let origin = m.area.spec_to_plane(x as u32, y as u32);
                            &&& #[trigger] m.domain.element(x, y) == DomainElement::spec_new(
                                origin.0,
                                origin.1,
                            )
                            &&& m.domain.mask[x][y] == DomainElementState::ActiveNew
                        }
                },
                Err(ConfigError::IterationBounds) => definition.iteration_min
                    >= definition.iteration_max,
                Err(ConfigError::EmptyArea) => {
                    &&& definition.iteration_min < definition.iteration_max
                    &&& Area::spec_new(
                        definition.area_size,
                        definition.target_re,
                        definition.target_im,
                        config.resolution_width,
                        config.resolution_height,
                    ) is None
                },
                Err(ConfigError::NoChunks) => {
                    &&& definition.iteration_min < definition.iteration_max
                    &&& Area::spec_new(
                        definition.area_size,
                        definition.target_re,
                        definition.target_im,
                        config.resolution_width,
                        config.resolution_height,
                    ) is Some
                    &&& chunks == 0
                },
            },
    {
        if definition.iteration_min >= definition.iteration_max {
            return Err(ConfigError::IterationBounds);
        }
        let area = match Area::new(
            definition.area_size,
            definition.target_re,
            definition.target_im,
            config.resolution_width,
            config.resolution_height,
        ) {
            Some(area) => area,
            None => {
                return Err(ConfigError::EmptyArea);
            },
        };
        let domain = match Domain::new(&area, chunks, seed) {
            Some(domain) => domain,
            None => {
                return Err(ConfigError::NoChunks);
            },
        };
        Ok(
            Machine {
                area,
                domain,
                calculation_config: CalculationConfig {
                    iteration_min: definition.iteration_min,
                    iteration_max: definition.iteration_max,
                    boundary,
                },
                result_config: ResultConfig {
                    resolution_multiplier: config.resolution_multiplier,
                    repeat: config.repeat,
                    save_images: config.save_images,
                },
            },
        )
    }

    /// Runs the escape-path algorithm on `el`.
    ///
    /// A first pass iterates until the state leaves the boundary or the cap
    /// is reached, and only counts: the steps, and those of them that lie
    /// inside the area. `el` is classified by the two counts. Only where they
    /// show a path worth recording, a second pass repeats the same steps and
    /// records it into `result`. Most points fail that test, and counting is
    /// far cheaper than recording.
    pub fn calculate_path_finite<F: Math<S>>(
        &self,
        el: &mut DomainElement<S>,
        fractal_math: &F,
        result: &mut ResultData<S>,
    )
        ensures
            *final(el) == finished(*fractal_math, self.area, self.calculation_config, *old(el)),
            final(result)@ == old(result)@ + recorded_paths(
                *fractal_math,
                self.area,
                self.calculation_config,
                *old(el),
            ),
            final(result).area_result == old(result).area_result,
    {
        let max = self.calculation_config.iteration_max;
        let min = self.calculation_config.iteration_min;
        let origin_re = el.origin_re;
        let origin_im = el.origin_im;
        let mut iterator: u32 = 0;
        let mut length: u32 = 0;
        let mut m = fractal_math.new_mem(origin_re, origin_im);
        while m.quadrance().less_than(self.calculation_config.boundary) && iterator < max
            invariant
                max == self.calculation_config.iteration_max,
                iterator <= max,
                length <= iterator,
                m == orbit(*fractal_math, origin_re, origin_im, iterator as nat),
                iterator_from(
                    *fractal_math,
                    self.calculation_config,
                    origin_re,
                    origin_im,
                    iterator as nat,
                ) == iterator_from(*fractal_math, self.calculation_config, origin_re, origin_im, 0),
                length == path_within(
                    *fractal_math,
                    self.area,
                    origin_re,
                    origin_im,
                    iterator as nat,
                ).len(),
            decreases max - iterator,
        {
            // Investigate if this is a good calculation path
            // Don't create path data yet. Too many origins don't produce good data
            // Most of the long and expensive calculations end up inside the set, useless
            fractal_math.math(&mut m, origin_re, origin_im);
            if self.area.contains(m.re(), m.im()) {
                length += 1;
            }
            iterator += 1;
        }
        el.set_finished_state(iterator, length, min, max);

        if length > min && iterator < max {
            // This origin produced good data, record calculation path
            let mut m = fractal_math.new_mem(origin_re, origin_im);
            let mut path: Vec<[S; 2]> = Vec::new();
            let mut step: u32 = 0;
            while step < iterator
                invariant
                    step <= iterator,
                    m == orbit(*fractal_math, origin_re, origin_im, step as nat),
                    path@ == path_within(
                        *fractal_math,
                        self.area,
                        origin_re,
                        origin_im,
                        step as nat,
                    ),
                decreases iterator - step,
            {
                fractal_math.math(&mut m, origin_re, origin_im);
                if self.area.contains(m.re(), m.im()) {
                    path.push([m.re(), m.im()]);
                }
                step += 1;
            }
            result.add_escape_path_long(path);
        }
        assert(result@ =~= old(result)@ + recorded_paths(
            *fractal_math,
            self.area,
            self.calculation_config,
            *old(el),
        ));
    }

    /// Calculates the chunk at `xy`: every active element of it runs through
    /// the escape-path algorithm, in the order in which the chunk holds them.
    /// The grid itself is only read; the elements come back as the
    /// calculation left them, and their paths go into `result`.
    pub fn chunk_calculation<F: Math<S>>(
        &self,
        xy: [u32; 2],
        fractal_math: &F,
        result: &mut ResultData<S>,
    ) -> (chunk: Vec<DomainElement<S>>)
        requires
            self.domain.wf(),
            xy[0] < self.domain.chunks,
            xy[1] < self.domain.chunks,
        ensures
            chunk@ == calculated_chunk(
                *fractal_math,
                self.area,
                self.calculation_config,
                self.domain.spec_chunk_elements(xy),
            ),
            final(result)@ == old(result)@ + chunk_paths(
                *fractal_math,
                self.area,
                self.calculation_config,
                self.domain.spec_chunk_elements(xy),
            ),
            final(result).area_result == old(result).area_result,
    {
        let bounds = self.domain.chunk_bounds(xy);
        let mut wrapped_chunk = self.domain.make_chunk(bounds.0, bounds.1, bounds.2, bounds.3);
        let ghost elements = wrapped_chunk@;
        assert(elements == self.domain.spec_chunk_elements(xy));
        let mut i: usize = 0;
        while i < wrapped_chunk.len()
            invariant
                i <= wrapped_chunk.len(),
                wrapped_chunk.len() == elements.len(),
                forall|k: int|
                    0 <= k < i ==> wrapped_chunk[k] == calculated(
                        *fractal_math,
                        self.area,
                        self.calculation_config,
                        elements[k],
                    ),
                forall|k: int| i <= k < elements.len() ==> wrapped_chunk[k] == elements[k],
                result@ == old(result)@ + chunk_paths(
                    *fractal_math,
                    self.area,
                    self.calculation_config,
                    elements.take(i as int),
                ),
                result.area_result == old(result).area_result,
            decreases wrapped_chunk.len() - i,
        {
            let ghost before = result@;
            let mut el = wrapped_chunk[i];
            if el.is_active() {
                self.calculate_path_finite(&mut el, fractal_math, result);
                wrapped_chunk[i] = el;
            }
            proof {
                assert(elements.take(i + 1).drop_last() =~= elements.take(i as int));
                assert(elements.take(i + 1).last() == elements[i as int]);
                assert(result@ =~= old(result)@ + chunk_paths(
                    *fractal_math,
                    self.area,
                    self.calculation_config,
                    elements.take(i + 1),
                ));
            }
            i += 1;
        }
        assert(elements.take(elements.len() as int) =~= elements);
        assert(wrapped_chunk@ =~= calculated_chunk(
            *fractal_math,
            self.area,
            self.calculation_config,
            elements,
        ));
        wrapped_chunk
    }

    /// The paths of a frame that calculates the chunks in the order of
    /// `coordinates`, every point marked for calculation.
    pub open spec fn spec_frame_paths<F: Math<S>>(self, math: F, coordinates: Seq<[u32; 2]>)
        -> Seq<Seq<[S; 2]>>
        decreases coordinates.len(),
    {
        if coordinates.len() == 0 {
            Seq::empty()
        } else {
            self.spec_frame_paths(math, coordinates.drop_last()) + chunk_paths(
                math,
                self.area,
                self.calculation_config,
                activated(self.domain.spec_chunk_elements(coordinates.last())),
            )
        }
    }

    /// The element at column `x`, row `y` after a frame: marked for
    /// calculation, and calculated where a chunk reaches it.
    pub open spec fn spec_element_after_frame<F: Math<S>>(self, math: F, x: int, y: int)
        -> DomainElement<S> {
        let el = self.domain.element(x, y).spec_activated();
        if reached(self.domain.width as int, self.domain.chunks as int, x) && reached(
            self.domain.height as int,
            self.domain.chunks as int,
            y,
        ) {
            calculated(math, self.area, self.calculation_config, el)
        } else {
            el
        }
    }

    /// A frame leaves every point where it was, and leaves no point active
    /// that a chunk reaches.
    pub proof fn lemma_element_after_frame<F: Math<S>>(self, math: F, x: int, y: int)
        ensures
            self.spec_element_after_frame(math, x, y).origin_re == self.domain.element(
                x,
                y,
            ).origin_re,
            self.spec_element_after_frame(math, x, y).origin_im == self.domain.element(
                x,
                y,
            ).origin_im,
            reached(self.domain.width as int, self.domain.chunks as int, x) && reached(
                self.domain.height as int,
                self.domain.chunks as int,
                y,
            ) ==> !self.spec_element_after_frame(math, x, y).state.spec_is_active(),
    {
    }

    /// How many points of the paths of the chunk at `xy` a frame counts into
    /// the pixel at column `x`, row `y`.
    spec fn spec_chunk_hits<F: Math<S>>(self, math: F, xy: [u32; 2], x: int, y: int)
        -> nat {
        hits(
            self.area,
            chunk_paths(
                math,
                self.area,
                self.calculation_config,
                activated(self.domain.spec_chunk_elements(xy)),
            ),
            x,
            y,
        )
    }

    /// Adds to a count what one more chunk counts into the pixel at `(x, y)`.
    spec fn spec_count_chunk<F: Math<S>>(self, math: F, x: int, y: int) -> spec_fn(
        nat,
        [u32; 2],
    ) -> nat {
        |sum: nat, xy: [u32; 2]| sum + self.spec_chunk_hits(math, xy, x, y)
    }

    /// What a frame counts into a pixel is the sum of what its chunks count
    /// into it.
    proof fn lemma_frame_hits_is_sum<F: Math<S>>(
        self,
        math: F,
        coordinates: Seq<[u32; 2]>,
        x: int,
        y: int,
    )
        ensures
            hits(self.area, self.spec_frame_paths(math, coordinates), x, y)
                == coordinates.fold_left(0nat, self.spec_count_chunk(math, x, y)),
        decreases coordinates.len(),
    {
        if coordinates.len() > 0 {
            self.lemma_frame_hits_is_sum(math, coordinates.drop_last(), x, y);
            lemma_hits_of_merged(
                self.area,
                self.spec_frame_paths(math, coordinates.drop_last()),
                chunk_paths(
                    math,
                    self.area,
                    self.calculation_config,
                    activated(self.domain.spec_chunk_elements(coordinates.last())),
                ),
                x,
                y,
            );
        }
    }

    /// The histogram of a frame does not depend on the order in which the
    /// chunks are calculated: two orders that hold the same chunks, each as
    /// often as the other, count the same into every pixel.
    pub proof fn lemma_frame_hits_in_any_order<F: Math<S>>(
        self,
        math: F,
        first: Seq<[u32; 2]>,
        second: Seq<[u32; 2]>,
        x: int,
        y: int,
    )
        requires
            first.to_multiset() == second.to_multiset(),
        ensures
            hits(self.area, self.spec_frame_paths(math, first), x, y) == hits(
                self.area,
                self.spec_frame_paths(math, second),
                x,
                y,
            ),
    {
        self.lemma_frame_hits_is_sum(math, first, x, y);
        self.lemma_frame_hits_is_sum(math, second, x, y);
        lemma_fold_left_permutation(first, second, self.spec_count_chunk(math, x, y), 0nat);
    }

    /// Whether `result` can be put into the grid: it names a chunk of the
    /// grid, and has one element for each cell of that chunk.
    pub open spec fn fits(self, result: ChunkResult<S>) -> bool {
        let bounds = self.domain.spec_chunk_bounds(result.xy);
        &&& result.xy[0] < self.domain.chunks
        &&& result.xy[1] < self.domain.chunks
        &&& result.elements.len() == (bounds.1 - bounds.0) * (bounds.3 - bounds.2)
    }

    /// The element at column `x`, row `y` once the first `count` of
    /// `results` have been put into the grid, one after the other.
    pub open spec fn spec_element_put(
        self,
        results: Seq<ChunkResult<S>>,
        count: nat,
        x: int,
        y: int,
    ) -> DomainElement<S>
        decreases count,
    {
        if count == 0 {
            self.domain.element(x, y)
        } else {
            let result = results[count - 1];
            let bounds = self.domain.spec_chunk_bounds(result.xy);
            if self.fits(result) && self.domain.chunk_holds(result.xy, x, y) {
                result.elements[chunk_index(x - bounds.0, y - bounds.2, bounds.3 - bounds.2)]
            } else {
                self.spec_element_put(results, (count - 1) as nat, x, y)
            }
        }
    }

    /// Whether one of the first `count` chunks of `coordinates` holds the
    /// cell at column `x`, row `y`.
    spec fn held_by_one_of(
        self,
        coordinates: Seq<[u32; 2]>,
        count: int,
        x: int,
        y: int,
    ) -> bool {
        exists|k: int| 0 <= k < count && self.domain.chunk_holds(#[trigger] coordinates[k], x, y)
    }

    /// All chunks together hold the cells that the chunks of each axis
    /// reach, and no others.
    proof fn lemma_held_iff_reached(self, coordinates: Seq<[u32; 2]>, x: int, y: int)
        requires
            self.domain.chunks > 0,
            holds_every_chunk_once(coordinates, self.domain.chunks as int),
            0 <= x < self.domain.width,
            0 <= y < self.domain.height,
        ensures
            self.held_by_one_of(coordinates, coordinates.len() as int, x, y) <==> (reached(
                self.domain.width as int,
                self.domain.chunks as int,
                x,
            ) && reached(self.domain.height as int, self.domain.chunks as int, y)),
    {
        let width = self.domain.width as int;
        let height = self.domain.height as int;
        let chunks = self.domain.chunks as int;
        if reached(width, chunks, x) && reached(height, chunks, y) {
            lemma_one_chunk_holds_position(width, chunks, x);
            lemma_one_chunk_holds_position(height, chunks, y);
            let xy: [u32; 2] = [
                (x / (width / chunks)) as u32,
                (y / (height / chunks)) as u32,
            ];
            assert(coordinates.contains(xy));
            let k = choose|k: int| 0 <= k < coordinates.len() && coordinates[k] == xy;
            assert(self.domain.chunk_holds(coordinates[k], x, y));
        }
        if self.held_by_one_of(coordinates, coordinates.len() as int, x, y) {
            let k = choose|k: int|
                0 <= k < coordinates.len() && self.domain.chunk_holds(
                    #[trigger] coordinates[k],
                    x,
                    y,
                );
            let cx = coordinates[k][0] as int;
            let cy = coordinates[k][1] as int;
            lemma_chunk_within_axis(width, chunks, cx);
            lemma_chunk_within_axis(height, chunks, cy);
            let size_x = width / chunks;
            let size_y = height / chunks;
            assert((cx + 1) * size_x <= chunks * size_x) by (nonlinear_arith)
                requires
                    cx + 1 <= chunks,
                    0 <= size_x,
            ;
            assert((cy + 1) * size_y <= chunks * size_y) by (nonlinear_arith)
                requires
                    cy + 1 <= chunks,
                    0 <= size_y,
            ;
        }
    }

    /// The paths of the chunks at `coordinates`, calculated in that order
    /// from the grid as it stands.
    spec fn spec_paths_in_order<F: Math<S>>(self, math: F, coordinates: Seq<[u32; 2]>)
        -> Seq<Seq<[S; 2]>>
        decreases coordinates.len(),
    {
        if coordinates.len() == 0 {
            Seq::empty()
        } else {
            self.spec_paths_in_order(math, coordinates.drop_last()) + chunk_paths(
                math,
                self.area,
                self.calculation_config,
                self.domain.spec_chunk_elements(coordinates.last()),
            )
        }
    }

    /// Once every point of the grid is marked for calculation, the paths of
    /// the grid as it stands are the paths of a frame.
    proof fn lemma_paths_of_activated<F: Math<S>>(
        self,
        before: Machine<S>,
        math: F,
        coordinates: Seq<[u32; 2]>,
    )
        requires
            before.domain.wf(),
            self.area == before.area,
            self.calculation_config == before.calculation_config,
            self.domain.width == before.domain.width,
            self.domain.height == before.domain.height,
            self.domain.chunks == before.domain.chunks,
            forall|x: int, y: int|
                0 <= x < before.domain.width && 0 <= y < before.domain.height
                    ==> #[trigger] self.domain.element(x, y) == before.domain.element(
                    x,
                    y,
                ).spec_activated(),
            forall|k: int|
                0 <= k < coordinates.len() ==> (#[trigger] coordinates[k])[0]
                    < before.domain.chunks && coordinates[k][1] < before.domain.chunks,
        ensures
            self.spec_paths_in_order(math, coordinates) == before.spec_frame_paths(
                math,
                coordinates,
            ),
        decreases coordinates.len(),
    {
        if coordinates.len() > 0 {
            self.lemma_paths_of_activated(before, math, coordinates.drop_last());
            lemma_chunk_of_activated(before.domain, self.domain, coordinates.last());
        }
    }

    /// Whether `result` is what the calculation of the chunk at `xy` hands
    /// back.
    spec fn is_result_of<F: Math<S>>(self, math: F, xy: [u32; 2], result: ChunkResult<S>) -> bool {
        &&& result.xy == xy
        &&& result.elements@ == calculated_chunk(
            math,
            self.area,
            self.calculation_config,
            self.domain.spec_chunk_elements(xy),
        )
        &&& result.paths@ == chunk_paths(
            math,
            self.area,
            self.calculation_config,
            self.domain.spec_chunk_elements(xy),
        )
        &&& result.paths.area_result == self.area
    }

    /// Where every result is that of the chunk at its place in
    /// `coordinates`, putting the results leaves each cell calculated that
    /// one of the chunks holds, and the others as they are.
    proof fn lemma_put_results<F: Math<S>>(
        self,
        math: F,
        coordinates: Seq<[u32; 2]>,
        results: Seq<ChunkResult<S>>,
        count: nat,
        x: int,
        y: int,
    )
        requires
            self.domain.wf(),
            0 <= x < self.domain.width,
            0 <= y < self.domain.height,
            count <= results.len() == coordinates.len(),
            forall|k: int|
                0 <= k < coordinates.len() ==> (#[trigger] coordinates[k])[0] < self.domain.chunks
                    && coordinates[k][1] < self.domain.chunks,
            forall|k: int|
                0 <= k < results.len() ==> self.is_result_of(
                    math,
                    coordinates[k],
                    #[trigger] results[k],
                ),
        ensures
            self.spec_element_put(results, count, x, y) == if self.held_by_one_of(
                coordinates,
                count as int,
                x,
                y,
            ) {
                calculated(math, self.area, self.calculation_config, self.domain.element(x, y))
            } else {
                self.domain.element(x, y)
            },
        decreases count,
    {
        if count > 0 {
            self.lemma_put_results(math, coordinates, results, (count - 1) as nat, x, y);
            let result = results[count - 1];
            let xy = coordinates[count - 1];
            assert(self.is_result_of(math, xy, result));
            let bounds = self.domain.spec_chunk_bounds(xy);
            lemma_chunk_within_axis(
                self.domain.width as int,
                self.domain.chunks as int,
                xy[0] as int,
            );
            lemma_chunk_within_axis(
                self.domain.height as int,
                self.domain.chunks as int,
                xy[1] as int,
            );
            assert((bounds.1 - bounds.0) * (bounds.3 - bounds.2) >= 0) by (nonlinear_arith)
                requires
                    bounds.1 - bounds.0 >= 0,
                    bounds.3 - bounds.2 >= 0,
            ;
            assert(self.fits(result));
            if self.domain.chunk_holds(xy, x, y) {
                assert(self.held_by_one_of(coordinates, count as int, x, y));
                self.domain.lemma_chunk_holds_cell(bounds.0, bounds.1, bounds.2, bounds.3, x, y);
            } else {
                if self.held_by_one_of(coordinates, count as int, x, y) {
                    let k = choose|k: int|
                        0 <= k < count && self.domain.chunk_holds(#[trigger] coordinates[k], x, y);
                    assert(k < count - 1);
                }
            }
        }
    }

    /// Where every result is that of the chunk at its place in
    /// `coordinates`, the results count into a pixel what the paths of those
    /// chunks count into it.
    proof fn lemma_count_results<F: Math<S>>(
        self,
        math: F,
        coordinates: Seq<[u32; 2]>,
        results: Seq<ChunkResult<S>>,
        count: nat,
        x: int,
        y: int,
    )
        requires
            count <= results.len() == coordinates.len(),
            forall|k: int|
                0 <= k < results.len() ==> self.is_result_of(
                    math,
                    coordinates[k],
                    #[trigger] results[k],
                ),
        ensures
            spec_result_hits(results, count, x, y) == hits(
                self.area,
                self.spec_paths_in_order(math, coordinates.take(count as int)),
                x,
                y,
            ),
        decreases count,
    {
        if count > 0 {
            self.lemma_count_results(math, coordinates, results, (count - 1) as nat, x, y);
            assert(self.is_result_of(math, coordinates[count - 1], results[count - 1]));
            assert(coordinates.take(count as int).drop_last() =~= coordinates.take(count - 1));
            lemma_hits_of_merged(
                self.area,
                self.spec_paths_in_order(math, coordinates.take(count - 1)),
                results[count - 1].paths@,
                x,
                y,
            );
        }
    }

    /// Starts a frame: every point of the grid is marked for calculation,
    /// and the order in which the chunks are to be calculated is drawn.
    pub fn start_frame(&mut self) -> (coordinates_xy: Vec<[u32; 2]>)
        requires
            old(self).wf(),
        ensures
            final(self).wf(),
            final(self).area == old(self).area,
            final(self).calculation_config == old(self).calculation_config,
            final(self).result_config == old(self).result_config,
            final(self).domain.chunks == old(self).domain.chunks,
            final(self).domain.mask == old(self).domain.mask,
            final(self).domain.seed == old(self).domain.spec_seed_after_shuffle(),
            forall|x: int, y: int|
                0 <= x < old(self).domain.width && 0 <= y < old(self).domain.height
                    ==> #[trigger] final(self).domain.element(x, y) == old(self).domain.element(
                    x,
                    y,
                ).spec_activated(),
            coordinates_xy@ == old(self).domain.spec_shuffled_calculation_coordinates(),
            holds_every_chunk_once(coordinates_xy@, old(self).domain.chunks as int),
            coordinates_xy@.to_multiset() == ordered_coordinates(
                old(self).domain.chunks as int,
            ).to_multiset(),
    {
        self.domain.activate_all();
        let ghost marked = self.domain;
        let coordinates_xy = self.domain.shuffled_calculation_coordinates();
        assert forall|x: int, y: int|
            0 <= x < old(self).domain.width && 0 <= y < old(self).domain.height
                implies #[trigger] self.domain.element(x, y) == old(self).domain.element(
            x,
            y,
        ).spec_activated() by {
            assert(self.domain.element(x, y) == marked.element(x, y));
        }
        coordinates_xy
    }

    /// Finishes a frame from what the calculations of its chunks handed
    /// back. This is the one place where the grid is written: the elements
    /// of each result are put back over the chunk that the result names, and
    /// the paths of all results are translated into the pixel histogram.
    /// Then the mask is brought up to date.
    ///
    /// A result that names no chunk of the grid, or holds another number of
    /// elements than its chunk has cells, leaves the grid as it is; its paths
    /// are counted all the same.
    pub fn finish_frame(&mut self, results: &Vec<ChunkResult<S>>) -> (result_pixels: ResultPixels)
        requires
            old(self).wf(),
        ensures
            final(self).wf(),
            final(self).area == old(self).area,
            final(self).calculation_config == old(self).calculation_config,
            final(self).result_config == old(self).result_config,
            final(self).domain.chunks == old(self).domain.chunks,
            final(self).domain.seed == old(self).domain.seed,
            forall|x: int, y: int|
                0 <= x < old(self).domain.width && 0 <= y < old(self).domain.height ==> {
                    &&& #[trigger] final(self).domain.element(x, y) == old(self).spec_element_put(
                        results@,
                        results.len() as nat,
                        x,
                        y,
                    )
                    &&& final(self).domain.mask[x][y] == final(self).domain.element(x, y).state
                },
            result_pixels.wf(),
            result_pixels.width == old(self).area.width_x,
            result_pixels.height == old(self).area.height_y,
            forall|x: int, y: int|
                0 <= x < result_pixels.width && 0 <= y < result_pixels.height
                    ==> #[trigger] result_pixels.value(x, y) == saturated(
                    spec_result_hits(results@, results.len() as nat, x, y) as int,
                ),
    {
        let ghost start = *self;
        let mut result_pixels = ResultPixels::new(self.area.width_x, self.area.height_y);
        let mut i: usize = 0;
        while i < results.len()
            invariant
                start == *old(self),
                start.wf(),
                self.area == start.area,
                self.calculation_config == start.calculation_config,
                self.result_config == start.result_config,
                self.domain.wf(),
                self.domain.width == start.domain.width,
                self.domain.height == start.domain.height,
                self.domain.chunks == start.domain.chunks,
                self.domain.seed == start.domain.seed,
                i <= results.len(),
                forall|x: int, y: int|
                    0 <= x < start.domain.width && 0 <= y < start.domain.height
                        ==> #[trigger] self.domain.element(x, y) == start.spec_element_put(
                        results@,
                        i as nat,
                        x,
                        y,
                    ),
                result_pixels.wf(),
                result_pixels.width == start.area.width_x,
                result_pixels.height == start.area.height_y,
                forall|x: int, y: int|
                    0 <= x < result_pixels.width && 0 <= y < result_pixels.height
                        ==> #[trigger] result_pixels.value(x, y) == saturated(
                        spec_result_hits(results@, i as nat, x, y) as int,
                    ),
            decreases results.len() - i,
        {
            let result = &results[i];
            let ghost before = self.domain;
            if result.xy[0] < self.domain.chunks && result.xy[1] < self.domain.chunks {
                let bounds = self.domain.chunk_bounds(result.xy);
                assert((bounds.1 - bounds.0) * (bounds.3 - bounds.2) <= 0xFFFF_FFFF * 0xFFFF_FFFF)
                    by (nonlinear_arith)
                    requires
                        0 <= bounds.1 - bounds.0 <= 0xFFFF_FFFF,
                        0 <= bounds.3 - bounds.2 <= 0xFFFF_FFFF,
                ;
                let cells = (bounds.1 - bounds.0) as u64 * (bounds.3 - bounds.2) as u64;
                if result.elements.len() as u64 == cells {
                    self.domain.put_chunk(
                        bounds.0,
                        bounds.1,
                        bounds.2,
                        bounds.3,
                        &result.elements,
                    );
                }
            }
            assert forall|x: int, y: int|
                0 <= x < start.domain.width && 0 <= y < start.domain.height
                    implies #[trigger] self.domain.element(x, y) == start.spec_element_put(
                results@,
                (i + 1) as nat,
                x,
                y,
            ) by {
                assert(before.element(x, y) == start.spec_element_put(results@, i as nat, x, y));
            }
            let ghost counted = result_pixels;
            result.paths.translate_paths_to_pixel_grid(&mut result_pixels);
            assert forall|x: int, y: int|
                0 <= x < result_pixels.width && 0 <= y < result_pixels.height
                    implies #[trigger] result_pixels.value(x, y) == saturated(
                spec_result_hits(results@, (i + 1) as nat, x, y) as int,
            ) by {
                assert(counted.value(x, y) == saturated(
                    spec_result_hits(results@, i as nat, x, y) as int,
                ));
            }
            i += 1;
        }
        self.domain.mask_full_update();
        result_pixels
    }

    /// Calculates one frame.
    ///
    /// Every point of the grid is marked for calculation, and the order of
    /// the chunks is drawn. Then the chunks are calculated one by one, the
    /// grid being read only; each leaves its elements and its paths. Only
    /// when all are done are the elements put back into the grid, the paths
    /// translated into the pixel histogram, and the mask brought up to date.
    ///
    /// The order that was drawn shows in the state of the source, and
    /// nowhere else: the histogram is that of the chunks taken in order.
    pub fn calculate<F: Math<S>>(&mut self, fractal_math: &F) -> (result_pixels: ResultPixels)
        requires
            old(self).wf(),
        ensures
            final(self).wf(),
            final(self).area == old(self).area,
            final(self).calculation_config == old(self).calculation_config,
            final(self).result_config == old(self).result_config,
            final(self).domain.chunks == old(self).domain.chunks,
            final(self).domain.seed == old(self).domain.spec_seed_after_shuffle(),
            forall|x: int, y: int|
                0 <= x < old(self).domain.width && 0 <= y < old(self).domain.height ==> {
                    &&& #[trigger] final(self).domain.element(x, y) == old(
                        self,
                    ).spec_element_after_frame(*fractal_math, x, y)
                    &&& final(self).domain.mask[x][y] == final(self).domain.element(x, y).state
                },
            result_pixels.width == old(self).area.width_x,
            result_pixels.height == old(self).area.height_y,
            is_histogram(
                result_pixels,
                old(self).area,
                old(self).spec_frame_paths(
                    *fractal_math,
                    ordered_coordinates(old(self).domain.chunks as int),
                ),
            ),
    {
        let coordinates_xy = self.start_frame();
        let ghost start = *self;

        // Calculate each domain chunk independently of the others
        let mut results: Vec<ChunkResult<S>> = Vec::new();
        let mut i: usize = 0;
        while i < coordinates_xy.len()
            invariant
                *self == start,
                start.wf(),
                holds_every_chunk_once(coordinates_xy@, start.domain.chunks as int),
                i <= coordinates_xy.len(),
                results.len() == i,
                forall|k: int|
                    0 <= k < i ==> start.is_result_of(
                        *fractal_math,
                        coordinates_xy[k],
                        #[trigger] results[k],
                    ),
            decreases coordinates_xy.len() - i,
        {
            let xy = coordinates_xy[i];
            let mut paths = ResultData::new(self.area);
            let elements = self.chunk_calculation(xy, fractal_math, &mut paths);
            results.push(ChunkResult { xy, elements, paths });
            i += 1;
        }

        // All chunks are done: put their elements back, count their paths
        let result_pixels = self.finish_frame(&results);

        assert forall|x: int, y: int|
            0 <= x < old(self).domain.width && 0 <= y < old(self).domain.height
                implies #[trigger] self.domain.element(x, y) == old(self).spec_element_after_frame(
            *fractal_math,
            x,
            y,
        ) by {
            start.lemma_put_results(
                *fractal_math,
                coordinates_xy@,
                results@,
                results.len() as nat,
                x,
                y,
            );
            start.lemma_held_iff_reached(coordinates_xy@, x, y);
            assert(start.domain.element(x, y) == old(self).domain.element(x, y).spec_activated());
        }
        // The order that was drawn does not show in the histogram
        assert forall|x: int, y: int|
            0 <= x < result_pixels.width && 0 <= y < result_pixels.height
                implies #[trigger] result_pixels.value(x, y) == saturated(
            hits(
                old(self).area,
                old(self).spec_frame_paths(
                    *fractal_math,
                    ordered_coordinates(old(self).domain.chunks as int),
                ),
                x,
                y,
            ) as int,
        ) by {
            start.lemma_count_results(
                *fractal_math,
                coordinates_xy@,
                results@,
                results.len() as nat,
                x,
                y,
            );
            assert(coordinates_xy@.take(coordinates_xy.len() as int) =~= coordinates_xy@);
            start.lemma_paths_of_activated(*old(self), *fractal_math, coordinates_xy@);
            old(self).lemma_frame_hits_in_any_order(
                *fractal_math,
                coordinates_xy@,
                ordered_coordinates(old(self).domain.chunks as int),
                x,
                y,
            );
        }
        result_pixels
    }
}

} // verus!
