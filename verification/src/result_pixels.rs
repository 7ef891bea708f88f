//! The pixel histogram of a frame: how often the recorded paths visited each
//! pixel.

use vstd::prelude::*;

verus! {

/// One count per pixel, `width` by `height`.
pub struct ResultPixels {
    pub width: u32,
    pub height: u32,
    /// The counts, by column and then by row.
    pub pixels: Vec<Vec<u32>>,
}

/// A count of `value`, as a cell holds it: a cell stops counting at the
/// largest number it can hold.
pub open spec fn saturated(value: int) -> u32 {
    if value > u32::MAX {
        u32::MAX
    } else {
        value as u32
    }
}

/// The sum of `f(x, y)` over the first `rows` rows of column `x`.
pub open spec fn sum_column(f: spec_fn(int, int) -> nat, x: int, rows: int) -> nat
    decreases rows,
{
    if rows <= 0 {
        0
    } else {
        sum_column(f, x, rows - 1) + f(x, rows - 1)
    }
}

/// The sum of `f(x, y)` over the first `rows` rows of the first `columns`
/// columns.
pub open spec fn sum_grid(f: spec_fn(int, int) -> nat, columns: int, rows: int) -> nat
    decreases columns,
{
    if columns <= 0 {
        0
    } else {
        sum_grid(f, columns - 1, rows) + sum_column(f, columns - 1, rows)
    }
}

/// The sum over a grid of a sum is the sum of the sums over the grid.
pub proof fn lemma_sum_grid_of_sum(
    f: spec_fn(int, int) -> nat,
    g: spec_fn(int, int) -> nat,
    h: spec_fn(int, int) -> nat,
    columns: int,
    rows: int,
)
    requires
        forall|x: int, y: int|
            0 <= x < columns && 0 <= y < rows ==> #[trigger] h(x, y) == f(x, y) + g(x, y),
    ensures
        sum_grid(h, columns, rows) == sum_grid(f, columns, rows) + sum_grid(g, columns, rows),
    decreases columns,
{
    if columns > 0 {
        lemma_sum_grid_of_sum(f, g, h, columns - 1, rows);
        lemma_sum_column_of_sum(f, g, h, columns - 1, rows);
    }
}

proof fn lemma_sum_column_of_sum(
    f: spec_fn(int, int) -> nat,
    g: spec_fn(int, int) -> nat,
    h: spec_fn(int, int) -> nat,
    x: int,
    rows: int,
)
    requires
        forall|y: int| 0 <= y < rows ==> #[trigger] h(x, y) == f(x, y) + g(x, y),
    ensures
        sum_column(h, x, rows) == sum_column(f, x, rows) + sum_column(g, x, rows),
    decreases rows,
{
    if rows > 0 {
        lemma_sum_column_of_sum(f, g, h, x, rows - 1);
    }
}

/// A function that is zero all over a grid sums to zero.
pub proof fn lemma_sum_grid_of_zero(f: spec_fn(int, int) -> nat, columns: int, rows: int)
    requires
        forall|x: int, y: int| 0 <= x < columns && 0 <= y < rows ==> #[trigger] f(x, y) == 0,
    ensures
        sum_grid(f, columns, rows) == 0,
    decreases columns,
{
    if columns > 0 {
        lemma_sum_grid_of_zero(f, columns - 1, rows);
        lemma_sum_column_of_one(f, columns - 1, rows, -1);
    }
}

/// A column in which `f` is one in row `at` and zero elsewhere sums to one
/// if it has that row, and to zero if not.
proof fn lemma_sum_column_of_one(f: spec_fn(int, int) -> nat, x: int, rows: int, at: int)
    requires
        forall|y: int|
            0 <= y < rows ==> #[trigger] f(x, y) == if y == at {
                1nat
            } else {
                0nat
            },
    ensures
        sum_column(f, x, rows) == if 0 <= at < rows {
            1nat
        } else {
            0nat
        },
    decreases rows,
{
    if rows > 0 {
        lemma_sum_column_of_one(f, x, rows - 1, at);
    }
}

/// A function that is one in a single cell of a grid and zero in all others
/// sums to one.
pub proof fn lemma_sum_grid_of_one(
    f: spec_fn(int, int) -> nat,
    columns: int,
    rows: int,
    px: int,
    py: int,
)
    requires
        0 <= py < rows,
        forall|x: int, y: int|
            0 <= x < columns && 0 <= y < rows ==> #[trigger] f(x, y) == if x == px && y == py {
                1nat
            } else {
                0nat
            },
    ensures
        sum_grid(f, columns, rows) == if 0 <= px < columns {
            1nat
        } else {
            0nat
        },
    decreases columns,
{
    if columns > 0 {
        lemma_sum_grid_of_one(f, columns - 1, rows, px, py);
        lemma_sum_column_of_one(f, columns - 1, rows, if columns - 1 == px { py } else { -1 });
    }
}

impl ResultPixels {
    /// There are as many columns as the grid is wide, and each has the
    /// grid's height.
    pub open spec fn wf(self) -> bool {
        &&& self.pixels.len() == self.width
        &&& forall|x: int| 0 <= x < self.width ==> (#[trigger] self.pixels[x]).len() == self.height
    }

    /// The count of the pixel at column `x`, row `y`.
    pub open spec fn value(self, x: int, y: int) -> u32 {
        self.pixels[x][y]
    }

    /// Every count is zero.
    pub open spec fn is_blank(self) -> bool {
        forall|x: int, y: int|
            0 <= x < self.width && 0 <= y < self.height ==> #[trigger] self.value(x, y) == 0
    }

    /// A grid of `width` by `height` pixels, nothing counted yet.
    pub fn new(width: u32, height: u32) -> (result_pixels: ResultPixels)
        ensures
            result_pixels.wf(),
            result_pixels.width == width,
            result_pixels.height == height,
            result_pixels.is_blank(),
    {
        let mut pixels: Vec<Vec<u32>> = Vec::new();
        let mut x: u32 = 0;
        while x < width
            invariant
                x <= width,
                pixels.len() == x,
                forall|i: int| 0 <= i < x ==> (#[trigger] pixels[i]).len() == height,
                forall|i: int, j: int| 0 <= i < x && 0 <= j < height ==> #[trigger] pixels[i][j] == 0,
            decreases width - x,
        {
            let mut column: Vec<u32> = Vec::new();
            let mut y: u32 = 0;
            while y < height
                invariant
                    y <= height,
                    column.len() == y,
                    forall|j: int| 0 <= j < y ==> #[trigger] column[j] == 0,
                decreases height - y,
            {
                column.push(0);
                y += 1;
            }
            pixels.push(column);
            x += 1;
        }
        ResultPixels { width, height, pixels }
    }

    /// The count of the pixel at column `x`, row `y`.
    pub fn value_at(&self, x: u32, y: u32) -> (value: u32)
        requires
            self.wf(),
            x < self.width,
            y < self.height,
        ensures
            value == self.value(x as int, y as int),
    {
        self.pixels[x as usize][y as usize]
    }

    /// Counts one more visit of the pixel at column `x`, row `y`.
    pub fn add(&mut self, x: u32, y: u32)
        requires
            old(self).wf(),
            x < old(self).width,
            y < old(self).height,
        ensures
            final(self).wf(),
            final(self).width == old(self).width,
            final(self).height == old(self).height,
            forall|i: int, j: int|
                0 <= i < old(self).width && 0 <= j < old(self).height
                    ==> #[trigger] final(self).value(i, j) == if i == x && j == y {
                    saturated(old(self).value(i, j) + 1)
                } else {
                    old(self).value(i, j)
                },
    {
        let count = self.pixels[x as usize][y as usize];
        let ghost before = self.pixels;
        self.pixels[x as usize][y as usize] = count.saturating_add(1);
        assert forall|i: int, j: int|
            0 <= i < self.width && 0 <= j < self.height implies #[trigger] self.value(i, j) == if i
            == x && j == y {
            saturated(old(self).value(i, j) + 1)
        } else {
            old(self).value(i, j)
        } by {
            if i == x && j == y {
            } else {
                assert(self.pixels[i][j] == before[i][j]);
            }
        }
    }
}

} // verus!
