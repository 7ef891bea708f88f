//! The paths recorded in a frame, and their translation into the pixel
//! histogram.

use vstd::prelude::*;
use crate::area::Area;
use crate::result_pixels::{
    lemma_sum_grid_of_one, lemma_sum_grid_of_sum, lemma_sum_grid_of_zero, saturated, sum_grid,
    ResultPixels,
};
use crate::scalar::Scalar;

verus! {

/// The paths that a frame recorded, with the area they are to be drawn into.
pub struct ResultData<S> {
    pub paths: Vec<Vec<[S; 2]>>,
    pub area_result: Area<S>,
}

/// One if `area` maps `point` to the pixel at column `x`, row `y`, zero if
/// not.
pub open spec fn point_hits<S: Scalar>(area: Area<S>, point: [S; 2], x: int, y: int) -> nat {
    match area.spec_to_pixel(point[0], point[1]) {
        Some((px, py)) => if px == x && py == y {
            1
        } else {
            0
        },
        None => 0,
    }
}

/// How many points of `path` the area maps to the pixel at `(x, y)`.
pub open spec fn path_hits<S: Scalar>(area: Area<S>, path: Seq<[S; 2]>, x: int, y: int) -> nat
    decreases path.len(),
{
    if path.len() == 0 {
        0
    } else {
        path_hits(area, path.drop_last(), x, y) + point_hits(area, path.last(), x, y)
    }
}

/// How many points of all of `paths` the area maps to the pixel at `(x, y)`.
pub open spec fn hits<S: Scalar>(area: Area<S>, paths: Seq<Seq<[S; 2]>>, x: int, y: int) -> nat
    decreases paths.len(),
{
    if paths.len() == 0 {
        0
    } else {
        hits(area, paths.drop_last(), x, y) + path_hits(area, paths.last(), x, y)
    }
}

/// `after` is `before` with the points of `paths` counted in: same grid, and
/// each cell grown by the number of points that `area` maps to it.
pub open spec fn holds_histogram<S: Scalar>(
    after: ResultPixels,
    before: ResultPixels,
    area: Area<S>,
    paths: Seq<Seq<[S; 2]>>,
) -> bool {
    &&& after.wf()
    &&& after.width == before.width
    &&& after.height == before.height
    &&& forall|x: int, y: int|
        0 <= x < before.width && 0 <= y < before.height ==> #[trigger] after.value(x, y)
            == saturated(before.value(x, y) + hits(area, paths, x, y))
}

/// `pixels` is the histogram of `paths`: each cell holds the number of
/// points that `area` maps to it.
pub open spec fn is_histogram<S: Scalar>(
    pixels: ResultPixels,
    area: Area<S>,
    paths: Seq<Seq<[S; 2]>>,
) -> bool {
    &&& pixels.wf()
    &&& forall|x: int, y: int|
        0 <= x < pixels.width && 0 <= y < pixels.height ==> #[trigger] pixels.value(x, y)
            == saturated(hits(area, paths, x, y) as int)
}

/// The sum of all cells of the histogram of `paths`, were no cell to stop
/// counting.
pub open spec fn histogram_total<S: Scalar>(area: Area<S>, paths: Seq<Seq<[S; 2]>>) -> nat {
    sum_grid(|x: int, y: int| hits(area, paths, x, y), area.width_x as int, area.height_y as int)
}

/// How many points of `path` the area maps to a pixel.
pub open spec fn path_points_in_grid<S: Scalar>(area: Area<S>, path: Seq<[S; 2]>) -> nat
    decreases path.len(),
{
    if path.len() == 0 {
        0
    } else {
        path_points_in_grid(area, path.drop_last()) + if area.spec_to_pixel(
            path.last()[0],
            path.last()[1],
        ) is Some {
            1nat
        } else {
            0nat
        }
    }
}

/// How many points of all of `paths` the area maps to a pixel.
pub open spec fn points_in_grid<S: Scalar>(area: Area<S>, paths: Seq<Seq<[S; 2]>>) -> nat
    decreases paths.len(),
{
    if paths.len() == 0 {
        0
    } else {
        points_in_grid(area, paths.drop_last()) + path_points_in_grid(area, paths.last())
    }
}

proof fn lemma_path_total<S: Scalar>(area: Area<S>, path: Seq<[S; 2]>)
    ensures
        sum_grid(
            |x: int, y: int| path_hits(area, path, x, y),
            area.width_x as int,
            area.height_y as int,
        ) == path_points_in_grid(area, path),
    decreases path.len(),
{
    let columns = area.width_x as int;
    let rows = area.height_y as int;
    let all = |x: int, y: int| path_hits(area, path, x, y);
    if path.len() == 0 {
        lemma_sum_grid_of_zero(all, columns, rows);
    } else {
        let front = |x: int, y: int| path_hits(area, path.drop_last(), x, y);
        let last = |x: int, y: int| point_hits(area, path.last(), x, y);
        lemma_path_total(area, path.drop_last());
        lemma_sum_grid_of_sum(front, last, all, columns, rows);
        match area.spec_to_pixel(path.last()[0], path.last()[1]) {
            Some((px, py)) => {
                lemma_sum_grid_of_one(last, columns, rows, px as int, py as int);
            },
            None => {
                lemma_sum_grid_of_zero(last, columns, rows);
            },
        }
    }
}

/// The cells of a histogram add up to the number of points that the area
/// maps to a pixel: every such point is counted in exactly one cell, and no
/// other point is counted at all.
pub proof fn lemma_histogram_total<S: Scalar>(area: Area<S>, paths: Seq<Seq<[S; 2]>>)
    ensures
        histogram_total(area, paths) == points_in_grid(area, paths),
    decreases paths.len(),
{
    let columns = area.width_x as int;
    let rows = area.height_y as int;
    let all = |x: int, y: int| hits(area, paths, x, y);
    if paths.len() == 0 {
        lemma_sum_grid_of_zero(all, columns, rows);
    } else {
        let front = |x: int, y: int| hits(area, paths.drop_last(), x, y);
        let last = |x: int, y: int| path_hits(area, paths.last(), x, y);
        lemma_histogram_total(area, paths.drop_last());
        lemma_path_total(area, paths.last());
        lemma_sum_grid_of_sum(front, last, all, columns, rows);
    }
}

/// Translating the same paths twice, each time into a blank grid of the same
/// size, gives the same histogram twice.
pub proof fn lemma_histogram_is_unique<S: Scalar>(
    first: ResultPixels,
    second: ResultPixels,
    blank_first: ResultPixels,
    blank_second: ResultPixels,
    area: Area<S>,
    paths: Seq<Seq<[S; 2]>>,
)
    requires
        blank_first.is_blank(),
        blank_second.is_blank(),
        blank_first.width == blank_second.width,
        blank_first.height == blank_second.height,
        holds_histogram(first, blank_first, area, paths),
        holds_histogram(second, blank_second, area, paths),
    ensures
        first.width == second.width,
        first.height == second.height,
        forall|x: int, y: int|
            0 <= x < first.width && 0 <= y < first.height ==> #[trigger] first.value(x, y)
                == second.value(x, y),
        is_histogram(first, area, paths),
{
    assert forall|x: int, y: int|
        0 <= x < first.width && 0 <= y < first.height implies #[trigger] first.value(x, y)
        == second.value(x, y) by {
        assert(blank_first.value(x, y) == 0);
        assert(blank_second.value(x, y) == 0);
    }
    assert forall|x: int, y: int|
        0 <= x < first.width && 0 <= y < first.height implies #[trigger] first.value(x, y)
        == saturated(hits(area, paths, x, y) as int) by {
        assert(blank_first.value(x, y) == 0);
    }
}

/// The histogram of two collections of paths taken together counts, in each
/// cell, what the two histograms count: so the order in which collections
/// of paths arrive does not change the histogram.
pub proof fn lemma_hits_of_merged<S: Scalar>(
    area: Area<S>,
    first: Seq<Seq<[S; 2]>>,
    second: Seq<Seq<[S; 2]>>,
    x: int,
    y: int,
)
    ensures
        hits(area, first + second, x, y) == hits(area, first, x, y) + hits(area, second, x, y),
        hits(area, first + second, x, y) == hits(area, second + first, x, y),
    decreases first.len() + second.len(),
{
    if second.len() == 0 {
        assert(first + second =~= first);
    } else {
        assert((first + second).drop_last() =~= first + second.drop_last());
        lemma_hits_of_merged(area, first, second.drop_last(), x, y);
    }
    if first.len() == 0 {
        assert(second + first =~= second);
    } else {
        assert((second + first).drop_last() =~= second + first.drop_last());
        lemma_hits_of_merged(area, second, first.drop_last(), x, y);
    }
}

impl<S: Scalar> View for ResultData<S> {
    type V = Seq<Seq<[S; 2]>>;

    /// The paths, each as the sequence of its points.
    open spec fn view(&self) -> Seq<Seq<[S; 2]>> {
        Seq::new(self.paths.len() as nat, |i: int| self.paths[i]@)
    }
}

impl<S: Scalar> ResultData<S> {
    /// No path yet, to be drawn into `area_result`.
    pub fn new(area_result: Area<S>) -> (result: ResultData<S>)
        ensures
            result@ == Seq::<Seq<[S; 2]>>::empty(),
            result.area_result == area_result,
    {
        let result = ResultData { paths: Vec::new(), area_result };
        assert(result@ =~= Seq::<Seq<[S; 2]>>::empty());
        result
    }

    /// Takes `path` in, behind the paths that are there.
    pub fn add_escape_path_long(&mut self, path: Vec<[S; 2]>)
        ensures
            final(self)@ == old(self)@.push(path@),
            final(self).area_result == old(self).area_result,
    {
        self.paths.push(path);
        assert(self@ =~= old(self)@.push(path@));
    }

    /// Counts every point of every path into the cell of `result_pixels` that
    /// the area maps it to. A point that the area maps to no pixel, or to one
    /// that `result_pixels` does not have, is left out.
    pub fn translate_paths_to_pixel_grid(&self, result_pixels: &mut ResultPixels)
        requires
            old(result_pixels).wf(),
        ensures
            holds_histogram(*final(result_pixels), *old(result_pixels), self.area_result, self@),
    {
        let mut i: usize = 0;
        while i < self.paths.len()
            invariant
                i <= self.paths.len(),
                holds_histogram(
                    *result_pixels,
                    *old(result_pixels),
                    self.area_result,
                    self@.take(i as int),
                ),
            decreases self.paths.len() - i,
        {
            let path = &self.paths[i];
            let ghost done = self@.take(i as int);
            let mut j: usize = 0;
            while j < path.len()
                invariant
                    i < self.paths.len(),
                    *path == self.paths[i as int],
                    done == self@.take(i as int),
                    j <= path.len(),
                    result_pixels.wf(),
                    result_pixels.width == old(result_pixels).width,
                    result_pixels.height == old(result_pixels).height,
                    forall|x: int, y: int|
                        0 <= x < result_pixels.width && 0 <= y < result_pixels.height
                            ==> #[trigger] result_pixels.value(x, y) == saturated(
                            old(result_pixels).value(x, y) + hits(self.area_result, done, x, y)
                                + path_hits(self.area_result, path@.take(j as int), x, y),
                        ),
                decreases path.len() - j,
            {
                let point = path[j];
                let ghost before = *result_pixels;
                proof {
                    assert(path@.take(j + 1).drop_last() =~= path@.take(j as int));
                    assert(path@.take(j + 1).last() == point);
                }
                match self.area_result.to_pixel(point[0], point[1]) {
                    Some((px, py)) => {
                        if px < result_pixels.width && py < result_pixels.height {
                            result_pixels.add(px, py);
                        }
                    },
                    None => {},
                }
                j += 1;
            }
            proof {
                assert(path@.take(path.len() as int) =~= path@);
                assert(self@.take(i + 1).drop_last() =~= done);
                assert(self@.take(i + 1).last() == path@);
            }
            i += 1;
        }
        assert(self@.take(self.paths.len() as int) =~= self@);
    }
}

} // verus!
