//! The grid of sample points: its elements, its division into chunks, and the
//! order in which the chunks are calculated.

use vstd::prelude::*;
use crate::area::Area;
use crate::chunk::{
    chunk_index, chunk_size, in_chunk, lemma_chunk_cell, lemma_chunk_within_axis,
};
use crate::domain_element::{DomainElement, DomainElementState};
use crate::scalar::Scalar;
use crate::shuffle::{
    draw, holds_every_chunk_once, lemma_ordered_coordinates, lemma_shuffle_holds_every_chunk_once,
    lemma_shuffle_to_multiset, ordered_coordinates, pick, shuffle_steps, swapped,
};

verus! {

/// How many chunks the grid is divided into along each axis, unless the
/// caller chooses otherwise.
pub const DEFAULT_CHUNKS: u32 = 20;

/// The grid of sample points, `width` by `height`, one point per pixel.
pub struct Domain<S> {
    pub width: u32,
    pub height: u32,
    /// The points, by column and then by row.
    pub elements: Vec<Vec<DomainElement<S>>>,
    /// The state of every point as of the last full update, for whoever
    /// paints the grid.
    pub mask: Vec<Vec<DomainElementState>>,
    /// The number of chunks along each axis.
    pub chunks: u32,
    /// The state of the source that calculation orders are drawn from.
    pub seed: u64,
}

impl<S: Scalar> Domain<S> {
    /// Every column of the elements and of the mask has the grid's height,
    /// there are as many columns as the grid is wide, and there is at least
    /// one chunk.
    pub open spec fn wf(self) -> bool {
        &&& self.chunks > 0
        &&& self.elements.len() == self.width
        &&& forall|x: int| 0 <= x < self.width ==> (#[trigger] self.elements[x]).len() == self.height
        &&& self.mask.len() == self.width
        &&& forall|x: int| 0 <= x < self.width ==> (#[trigger] self.mask[x]).len() == self.height
    }

    /// The point at column `x`, row `y`.
    pub open spec fn element(self, x: int, y: int) -> DomainElement<S> {
        self.elements[x][y]
    }

    /// The elements of columns `x_from..x_to`, rows `y_from..y_to`, column
    /// after column.
    pub open spec fn spec_chunk(self, x_from: int, x_to: int, y_from: int, y_to: int) -> Seq<
        DomainElement<S>,
    > {
        Seq::new(
            ((x_to - x_from) * (y_to - y_from)) as nat,
            |k: int| self.element(x_from + k / (y_to - y_from), y_from + k % (y_to - y_from)),
        )
    }

    /// A chunk holds the element of each of its cells at that cell's
    /// position.
    pub proof fn lemma_chunk_holds_cell(
        self,
        x_from: int,
        x_to: int,
        y_from: int,
        y_to: int,
        x: int,
        y: int,
    )
        requires
            x_from <= x < x_to,
            y_from <= y < y_to,
        ensures
            0 <= chunk_index(x - x_from, y - y_from, y_to - y_from) < self.spec_chunk(
                x_from,
                x_to,
                y_from,
                y_to,
            ).len(),
            self.spec_chunk(x_from, x_to, y_from, y_to)[chunk_index(
                x - x_from,
                y - y_from,
                y_to - y_from,
            )] == self.element(x, y),
    {
        let rows = y_to - y_from;
        let columns = x_to - x_from;
        lemma_chunk_cell(x - x_from, y - y_from, rows);
        assert((x - x_from) * rows + (y - y_from) < columns * rows) by (nonlinear_arith)
            requires
                0 <= x - x_from < columns,
                0 <= y - y_from < rows,
        ;
    }

    /// A grid with one fresh point in the middle of every pixel of `area`,
    /// divided into `chunks` chunks along each axis, its calculation orders
    /// drawn from `seed`. A division into no chunks is refused.
    pub fn new(area: &Area<S>, chunks: u32, seed: u64) -> (domain: Option<Domain<S>>)
        ensures
            domain is Some <==> chunks > 0,
            match domain {
                Some(d) => {
                    &&& d.wf()
                    &&& d.width == area.width_x
                    &&& d.height == area.height_y
                    &&& d.chunks == chunks
                    &&& d.seed == seed
                    &&& forall|x: int, y: int|
                        0 <= x < d.width && 0 <= y < d.height ==> {
                            let origin = area.spec_to_plane(x as u32, y as u32);
                            &&& #[trigger] d.element(x, y) == DomainElement::spec_new(
                                origin.0,
                                origin.1,
                            )
                            &&& d.mask[x][y] == DomainElementState::ActiveNew
                        }
                },
                None => true,
            },
    {
        if chunks == 0 {
            return None;
        }
        let width = area.width_x;
        let height = area.height_y;
        let mut elements: Vec<Vec<DomainElement<S>>> = Vec::new();
        let mut mask: Vec<Vec<DomainElementState>> = Vec::new();
        let mut x: u32 = 0;
        while x < width
            invariant
                x <= width,
                elements.len() == x,
                mask.len() == x,
                forall|i: int| 0 <= i < x ==> (#[trigger] elements[i]).len() == height,
                forall|i: int| 0 <= i < x ==> (#[trigger] mask[i]).len() == height,
                forall|i: int, j: int|
                    0 <= i < x && 0 <= j < height ==> {
                        let origin = area.spec_to_plane(i as u32, j as u32);
                        &&& #[trigger] elements[i][j] == DomainElement::spec_new(origin.0, origin.1)
                        &&& mask[i][j] == DomainElementState::ActiveNew
                    },
            decreases width - x,
        {
            let mut column: Vec<DomainElement<S>> = Vec::new();
            let mut mask_column: Vec<DomainElementState> = Vec::new();
            let mut y: u32 = 0;
            while y < height
                invariant
                    y <= height,
                    column.len() == y,
                    mask_column.len() == y,
                    forall|j: int|
                        0 <= j < y ==> {
                            let origin = area.spec_to_plane(x, j as u32);
                            &&& #[trigger] column[j] == DomainElement::spec_new(origin.0, origin.1)
                            &&& mask_column[j] == DomainElementState::ActiveNew
                        },
                decreases height - y,
            {
                let origin = area.to_plane(x, y);
                column.push(DomainElement::new(origin.0, origin.1));
                mask_column.push(DomainElementState::ActiveNew);
                y += 1;
            }
            elements.push(column);
            mask.push(mask_column);
            x += 1;
        }
        Some(Domain { width, height, elements, mask, chunks, seed })
    }

    /// The elements of the rectangle of columns `x_from..x_to` and rows
    /// `y_from..y_to`.
    pub fn make_chunk(&self, x_from: usize, x_to: usize, y_from: usize, y_to: usize) -> (chunk:
        Vec<DomainElement<S>>)
        requires
            self.wf(),
            x_from <= x_to <= self.width,
            y_from <= y_to <= self.height,
        ensures
            chunk@ == self.spec_chunk(x_from as int, x_to as int, y_from as int, y_to as int),
    {
        let ghost rows = y_to - y_from;
        let mut chunk: Vec<DomainElement<S>> = Vec::new();
        let mut x = x_from;
        while x < x_to
            invariant
                self.wf(),
                x_from <= x <= x_to <= self.width,
                y_from <= y_to <= self.height,
                rows == y_to - y_from,
                chunk.len() == (x - x_from) * rows,
                forall|k: int|
                    0 <= k < chunk.len() ==> chunk[k] == self.element(
                        x_from + k / rows,
                        y_from + k % rows,
                    ),
            decreases x_to - x,
        {
            let mut y = y_from;
            while y < y_to
                invariant
                    self.wf(),
                    x_from <= x < x_to <= self.width,
                    y_from <= y <= y_to <= self.height,
                    rows == y_to - y_from,
                    chunk.len() == chunk_index(x - x_from, y - y_from, rows),
                    forall|k: int|
                        0 <= k < chunk.len() ==> chunk[k] == self.element(
                            x_from + k / rows,
                            y_from + k % rows,
                        ),
                decreases y_to - y,
            {
                proof {
                    lemma_chunk_cell(x - x_from, y - y_from, rows);
                }
                chunk.push(self.elements[x][y]);
                y += 1;
            }
            assert(chunk_index(x - x_from, rows, rows) == (x + 1 - x_from) * rows)
                by (nonlinear_arith);
            x += 1;
        }
        assert(chunk@ =~= self.spec_chunk(x_from as int, x_to as int, y_from as int, y_to as int));
        chunk
    }

    /// Puts `chunk` back over the rectangle of columns `x_from..x_to` and
    /// rows `y_from..y_to`, each element at the cell it was taken from.
    pub fn put_chunk(
        &mut self,
        x_from: usize,
        x_to: usize,
        y_from: usize,
        y_to: usize,
        chunk: &Vec<DomainElement<S>>,
    )
        requires
            old(self).wf(),
            x_from <= x_to <= old(self).width,
            y_from <= y_to <= old(self).height,
            chunk.len() == (x_to - x_from) * (y_to - y_from),
        ensures
            final(self).wf(),
            final(self).width == old(self).width,
            final(self).height == old(self).height,
            final(self).chunks == old(self).chunks,
            final(self).seed == old(self).seed,
            final(self).mask == old(self).mask,
            forall|x: int, y: int|
                0 <= x < old(self).width && 0 <= y < old(self).height
                    ==> #[trigger] final(self).element(x, y) == if x_from <= x < x_to && y_from
                    <= y < y_to {
                    chunk[chunk_index(x - x_from, y - y_from, y_to - y_from)]
                } else {
                    old(self).element(x, y)
                },
    {
        let ghost rows = y_to - y_from;
        let mut k: usize = 0;
        let mut x = x_from;
        while x < x_to
            invariant
                self.wf(),
                self.width == old(self).width,
                self.height == old(self).height,
                self.chunks == old(self).chunks,
                self.seed == old(self).seed,
                self.mask == old(self).mask,
                x_from <= x <= x_to <= self.width,
                y_from <= y_to <= self.height,
                rows == y_to - y_from,
                chunk.len() == (x_to - x_from) * rows,
                k == (x - x_from) * rows,
                forall|i: int, j: int|
                    0 <= i < self.width && 0 <= j < self.height ==> #[trigger] self.element(i, j)
                        == if x_from <= i < x && y_from <= j < y_to {
                        chunk[chunk_index(i - x_from, j - y_from, rows)]
                    } else {
                        old(self).element(i, j)
                    },
            decreases x_to - x,
        {
            let mut y = y_from;
            while y < y_to
                invariant
                    self.wf(),
                    self.width == old(self).width,
                    self.height == old(self).height,
                    self.chunks == old(self).chunks,
                    self.seed == old(self).seed,
                    self.mask == old(self).mask,
                    x_from <= x < x_to <= self.width,
                    y_from <= y <= y_to <= self.height,
                    rows == y_to - y_from,
                    chunk.len() == (x_to - x_from) * rows,
                    k == chunk_index(x - x_from, y - y_from, rows),
                    forall|i: int, j: int|
                        0 <= i < self.width && 0 <= j < self.height ==> #[trigger] self.element(
                            i,
                            j,
                        ) == if (x_from <= i < x && y_from <= j < y_to) || (i == x && y_from <= j
                            < y) {
                            chunk[chunk_index(i - x_from, j - y_from, rows)]
                        } else {
                            old(self).element(i, j)
                        },
                decreases y_to - y,
            {
                assert(k < chunk.len()) by (nonlinear_arith)
                    requires
                        k == (x - x_from) * rows + (y - y_from),
                        chunk.len() == (x_to - x_from) * rows,
                        0 <= x - x_from < x_to - x_from,
                        0 <= y - y_from < rows,
                ;
                let ghost before = *self;
                self.elements[x][y] = chunk[k];
                assert forall|i: int, j: int|
                    0 <= i < self.width && 0 <= j < self.height implies #[trigger] self.element(
                    i,
                    j,
                ) == if (x_from <= i < x && y_from <= j < y_to) || (i == x && y_from <= j < y + 1) {
                    chunk[chunk_index(i - x_from, j - y_from, rows)]
                } else {
                    old(self).element(i, j)
                } by {
                    if i == x && j == y {
                    } else {
                        assert(self.element(i, j) == before.element(i, j));
                    }
                }
                k += 1;
                y += 1;
            }
            assert(chunk_index(x - x_from, rows, rows) == (x + 1 - x_from) * rows)
                by (nonlinear_arith);
            x += 1;
        }
    }

    /// The columns `.0 .. .1` and the rows `.2 .. .3` of the chunk at `xy`.
    pub open spec fn spec_chunk_bounds(self, xy: [u32; 2]) -> (int, int, int, int) {
        let size_x = chunk_size(self.width as int, self.chunks as int);
        let size_y = chunk_size(self.height as int, self.chunks as int);
        (xy[0] * size_x, (xy[0] + 1) * size_x, xy[1] * size_y, (xy[1] + 1) * size_y)
    }

    /// The elements of the chunk at `xy`.
    pub open spec fn spec_chunk_elements(self, xy: [u32; 2]) -> Seq<DomainElement<S>> {
        let bounds = self.spec_chunk_bounds(xy);
        self.spec_chunk(bounds.0, bounds.1, bounds.2, bounds.3)
    }

    /// The rectangle of the grid that the chunk at `xy` covers: its first
    /// column, the column behind its last, its first row, and the row behind
    /// its last.
    pub fn chunk_bounds(&self, xy: [u32; 2]) -> (bounds: (usize, usize, usize, usize))
        requires
            xy[0] < self.chunks,
            xy[1] < self.chunks,
        ensures
            (bounds.0 as int, bounds.1 as int, bounds.2 as int, bounds.3 as int)
                == self.spec_chunk_bounds(xy),
            bounds.0 <= bounds.1 <= self.width,
            bounds.2 <= bounds.3 <= self.height,
    {
        let chunk_size_x = self.width / self.chunks;
        let chunk_size_y = self.height / self.chunks;
        proof {
            lemma_chunk_within_axis(self.width as int, self.chunks as int, xy[0] as int);
            lemma_chunk_within_axis(self.height as int, self.chunks as int, xy[1] as int);
        }
        (
            (xy[0] * chunk_size_x) as usize,
            ((xy[0] + 1) * chunk_size_x) as usize,
            (xy[1] * chunk_size_y) as usize,
            ((xy[1] + 1) * chunk_size_y) as usize,
        )
    }

    /// Marks every point of the grid for calculation.
    pub fn activate_all(&mut self)
        requires
            old(self).wf(),
        ensures
            final(self).wf(),
            final(self).width == old(self).width,
            final(self).height == old(self).height,
            final(self).chunks == old(self).chunks,
            final(self).seed == old(self).seed,
            final(self).mask == old(self).mask,
            forall|x: int, y: int|
                0 <= x < old(self).width && 0 <= y < old(self).height
                    ==> #[trigger] final(self).element(x, y) == old(self).element(
                    x,
                    y,
                ).spec_activated(),
    {
        let mut x: usize = 0;
        while x < self.elements.len()
            invariant
                self.wf(),
                self.width == old(self).width,
                self.height == old(self).height,
                self.chunks == old(self).chunks,
                self.seed == old(self).seed,
                self.mask == old(self).mask,
                x <= self.width,
                forall|i: int, j: int|
                    0 <= i < self.width && 0 <= j < self.height ==> #[trigger] self.element(i, j)
                        == if i < x {
                        old(self).element(i, j).spec_activated()
                    } else {
                        old(self).element(i, j)
                    },
            decreases self.width - x,
        {
            let mut y: usize = 0;
            while y < self.elements[x].len()
                invariant
                    self.wf(),
                    self.width == old(self).width,
                    self.height == old(self).height,
                    self.chunks == old(self).chunks,
                    self.seed == old(self).seed,
                    self.mask == old(self).mask,
                    x < self.width,
                    y <= self.height,
                    forall|i: int, j: int|
                        0 <= i < self.width && 0 <= j < self.height ==> #[trigger] self.element(
                            i,
                            j,
                        ) == if i < x || (i == x && j < y) {
                            old(self).element(i, j).spec_activated()
                        } else {
                            old(self).element(i, j)
                        },
                decreases self.height - y,
            {
                let ghost before = *self;
                let mut el = self.elements[x][y];
                el.activate();
                self.elements[x][y] = el;
                assert forall|i: int, j: int|
                    0 <= i < self.width && 0 <= j < self.height implies #[trigger] self.element(
                    i,
                    j,
                ) == if i < x || (i == x && j < y + 1) {
                    old(self).element(i, j).spec_activated()
                } else {
                    old(self).element(i, j)
                } by {
                    if i == x && j == y {
                    } else {
                        assert(self.element(i, j) == before.element(i, j));
                    }
                }
                y += 1;
            }
            x += 1;
        }
    }

    /// Whether the chunk at `xy` holds the cell at column `x`, row `y`.
    pub open spec fn chunk_holds(self, xy: [u32; 2], x: int, y: int) -> bool {
        &&& in_chunk(self.width as int, self.chunks as int, xy[0] as int, x)
        &&& in_chunk(self.height as int, self.chunks as int, xy[1] as int, y)
    }

    /// The order in which the next frame calculates the chunks.
    pub open spec fn spec_shuffled_calculation_coordinates(self) -> Seq<[u32; 2]> {
        shuffle_steps(
            ordered_coordinates(self.chunks as int),
            self.seed,
            (self.chunks * self.chunks - 1) as nat,
        ).0
    }

    /// The state of the source once the next order has been drawn from it.
    pub open spec fn spec_seed_after_shuffle(self) -> u64 {
        shuffle_steps(
            ordered_coordinates(self.chunks as int),
            self.seed,
            (self.chunks * self.chunks - 1) as nat,
        ).1
    }

    /// The coordinates of all chunks, in order.
    fn ordered_calculation_coordinates(&self) -> (coordinates: Vec<[u32; 2]>)
        requires
            self.chunks > 0,
        ensures
            coordinates@ == ordered_coordinates(self.chunks as int),
    {
        let chunks = self.chunks;
        let mut coordinates: Vec<[u32; 2]> = Vec::new();
        let mut cx: u32 = 0;
        while cx < chunks
            invariant
                0 < chunks,
                cx <= chunks,
                coordinates.len() == cx * chunks,
                forall|k: int|
                    0 <= k < coordinates.len() ==> coordinates[k] == [
                        (k / (chunks as int)) as u32,
                        (k % (chunks as int)) as u32,
                    ],
            decreases chunks - cx,
        {
            let mut cy: u32 = 0;
            while cy < chunks
                invariant
                    0 < chunks,
                    cx < chunks,
                    cy <= chunks,
                    coordinates.len() == chunk_index(cx as int, cy as int, chunks as int),
                    forall|k: int|
                        0 <= k < coordinates.len() ==> coordinates[k] == [
                            (k / (chunks as int)) as u32,
                            (k % (chunks as int)) as u32,
                        ],
                decreases chunks - cy,
            {
                proof {
                    lemma_chunk_cell(cx as int, cy as int, chunks as int);
                }
                coordinates.push([cx, cy]);
                cy += 1;
            }
            assert(chunk_index(cx as int, chunks as int, chunks as int) == (cx + 1) * chunks)
                by (nonlinear_arith);
            cx += 1;
        }
        assert(coordinates@ =~= ordered_coordinates(self.chunks as int));
        coordinates
    }

    /// Draws the order in which the chunks of a frame are calculated: a
    /// permutation of the coordinates of all chunks, chosen by the state of
    /// the source, which moves on.
    pub fn shuffled_calculation_coordinates(&mut self) -> (coordinates: Vec<[u32; 2]>)
        requires
            old(self).chunks > 0,
        ensures
            coordinates@ == old(self).spec_shuffled_calculation_coordinates(),
            holds_every_chunk_once(coordinates@, old(self).chunks as int),
            coordinates@.to_multiset() == ordered_coordinates(
                old(self).chunks as int,
            ).to_multiset(),
            final(self).seed == old(self).spec_seed_after_shuffle(),
            final(self).width == old(self).width,
            final(self).height == old(self).height,
            final(self).chunks == old(self).chunks,
            final(self).elements == old(self).elements,
            final(self).mask == old(self).mask,
    {
        let mut coordinates = self.ordered_calculation_coordinates();
        let ghost ordered = coordinates@;
        let ghost seed = self.seed;
        let count = coordinates.len();
        proof {
            lemma_ordered_coordinates(self.chunks as int);
            assert(count >= 1) by (nonlinear_arith)
                requires
                    count == self.chunks * self.chunks,
                    self.chunks > 0,
            ;
        }
        let mut state = self.seed;
        let mut position = count - 1;
        while position > 0
            invariant
                position < count,
                count == ordered.len(),
                coordinates.len() == count,
                coordinates@ == shuffle_steps(ordered, seed, (count - 1 - position) as nat).0,
                state == shuffle_steps(ordered, seed, (count - 1 - position) as nat).1,
            decreases position,
        {
            let ghost before = coordinates@;
            state = draw(state);
            let other = pick(state, position + 1);
            let here = coordinates[position];
            let there = coordinates[other];
            coordinates[position] = there;
            coordinates[other] = here;
            assert(coordinates@ =~= swapped(before, position as int, other as int));
            position -= 1;
        }
        proof {
            lemma_shuffle_holds_every_chunk_once(
                ordered,
                seed,
                (count - 1) as nat,
                self.chunks as int,
            );
            lemma_shuffle_to_multiset(ordered, seed, (count - 1) as nat);
        }
        self.seed = state;
        coordinates
    }

    /// Brings the mask up to date: afterwards it shows the state of every
    /// point of the grid.
    pub fn mask_full_update(&mut self)
        requires
            old(self).wf(),
        ensures
            final(self).wf(),
            final(self).width == old(self).width,
            final(self).height == old(self).height,
            final(self).chunks == old(self).chunks,
            final(self).seed == old(self).seed,
            final(self).elements == old(self).elements,
            forall|x: int, y: int|
                0 <= x < old(self).width && 0 <= y < old(self).height ==> #[trigger] final(
                    self
                ).mask[x][y] == old(self).element(x, y).state,
    {
        let mut x: usize = 0;
        while x < self.elements.len()
            invariant
                self.wf(),
                self.width == old(self).width,
                self.height == old(self).height,
                self.chunks == old(self).chunks,
                self.seed == old(self).seed,
                self.elements == old(self).elements,
                x <= self.width,
                forall|i: int, j: int|
                    0 <= i < x && 0 <= j < self.height ==> #[trigger] self.mask[i][j]
                        == self.element(i, j).state,
            decreases self.width - x,
        {
            let mut y: usize = 0;
            while y < self.elements[x].len()
                invariant
                    self.wf(),
                    self.width == old(self).width,
                    self.height == old(self).height,
                    self.chunks == old(self).chunks,
                    self.seed == old(self).seed,
                    self.elements == old(self).elements,
                    x < self.width,
                    y <= self.height,
                    forall|i: int, j: int|
                        (0 <= i < x && 0 <= j < self.height) || (i == x && 0 <= j < y)
                            ==> #[trigger] self.mask[i][j] == self.element(i, j).state,
                decreases self.height - y,
            {
                let ghost before = self.mask;
                self.mask[x][y] = self.elements[x][y].state;
                assert forall|i: int, j: int|
                    (0 <= i < x && 0 <= j < self.height) || (i == x && 0 <= j < y
                        + 1) implies #[trigger] self.mask[i][j] == self.element(i, j).state by {
                    if i == x && j == y {
                    } else {
                        assert(self.mask[i][j] == before[i][j]);
                    }
                }
                y += 1;
            }
            x += 1;
        }
    }
}

} // verus!
