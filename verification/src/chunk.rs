//! The division of the grid into chunks: which cells a chunk covers, and
//! where a chunk holds the element of a cell.

use vstd::prelude::*;
use vstd::arithmetic::div_mod::{lemma_fundamental_div_mod, lemma_fundamental_div_mod_converse};

verus! {

/// The number of columns (or rows) of one chunk, on an axis of `extent` cells
/// divided into `chunks` chunks.
pub open spec fn chunk_size(extent: int, chunks: int) -> int {
    extent / chunks
}

/// Whether chunk `c` of an axis holds the cell at `position`.
pub open spec fn in_chunk(extent: int, chunks: int, c: int, position: int) -> bool {
    c * chunk_size(extent, chunks) <= position < (c + 1) * chunk_size(extent, chunks)
}

/// The cells that the chunks of an axis reach: all of them where the chunks
/// divide the axis evenly, all but a remainder at the far end otherwise.
pub open spec fn reached(extent: int, chunks: int, position: int) -> bool {
    0 <= position < chunks * chunk_size(extent, chunks)
}

/// A chunk of the axis lies within the axis.
pub proof fn lemma_chunk_within_axis(extent: int, chunks: int, c: int)
    requires
        0 <= extent,
        0 <= c < chunks,
    ensures
        0 <= c * chunk_size(extent, chunks) <= (c + 1) * chunk_size(extent, chunks) <= extent,
{
    let size = extent / chunks;
    lemma_fundamental_div_mod(extent, chunks);
    assert(0 <= size && chunks * size <= extent) by (nonlinear_arith)
        requires
            extent == chunks * size + extent % chunks,
            0 <= extent % chunks < chunks,
            0 <= extent,
    ;
    assert(0 <= c * size <= (c + 1) * size <= chunks * size) by (nonlinear_arith)
        requires
            0 <= c < chunks,
            0 <= size,
    ;
}

/// Every cell that the chunks of an axis reach lies in exactly one of them.
pub proof fn lemma_one_chunk_holds_position(extent: int, chunks: int, position: int)
    requires
        0 <= extent,
        0 < chunks,
        reached(extent, chunks, position),
    ensures
        0 <= position / chunk_size(extent, chunks) < chunks,
        in_chunk(extent, chunks, position / chunk_size(extent, chunks), position),
        forall|c: int| in_chunk(extent, chunks, c, position) ==> c == position / chunk_size(extent, chunks),
{
    let size = chunk_size(extent, chunks);
    lemma_chunk_within_axis(extent, chunks, 0);
    lemma_chunk_position(position, chunks, size);
    let q = position / size;
    assert((q + 1) * size == q * size + size) by (nonlinear_arith);
    assert forall|c: int| in_chunk(extent, chunks, c, position) implies c == q by {
        assert((c + 1) * size == c * size + size) by (nonlinear_arith);
        lemma_fundamental_div_mod_converse(position, size, c, position - c * size);
    }
}

/// Where the chunks divide both axes of a grid evenly, every cell of the grid
/// lies in exactly one chunk: the chunks cover the grid without gap or
/// overlap.
pub proof fn lemma_chunks_partition_grid(width: int, height: int, chunks: int, x: int, y: int)
    requires
        chunks > 0,
        width % chunks == 0,
        height % chunks == 0,
        0 <= x < width,
        0 <= y < height,
    ensures
        0 <= x / chunk_size(width, chunks) < chunks,
        0 <= y / chunk_size(height, chunks) < chunks,
        in_chunk(width, chunks, x / chunk_size(width, chunks), x),
        in_chunk(height, chunks, y / chunk_size(height, chunks), y),
        forall|cx: int, cy: int|
            in_chunk(width, chunks, cx, x) && in_chunk(height, chunks, cy, y) ==> cx == x
                / chunk_size(width, chunks) && cy == y / chunk_size(height, chunks),
{
    lemma_fundamental_div_mod(width, chunks);
    lemma_fundamental_div_mod(height, chunks);
    lemma_one_chunk_holds_position(width, chunks, x);
    lemma_one_chunk_holds_position(height, chunks, y);
}

/// The position in a chunk with rows of `rows` cells of the cell in its
/// column `column` and row `row`.
pub open spec fn chunk_index(column: int, row: int, rows: int) -> int {
    column * rows + row
}

/// The cell at `chunk_index(column, row, rows)` is found again from its
/// position.
pub proof fn lemma_chunk_cell(column: int, row: int, rows: int)
    requires
        0 <= column,
        0 <= row < rows,
    ensures
        0 <= chunk_index(column, row, rows),
        chunk_index(column, row, rows) / rows == column,
        chunk_index(column, row, rows) % rows == row,
{
    lemma_fundamental_div_mod_converse(chunk_index(column, row, rows), rows, column, row);
    assert(0 <= column * rows) by (nonlinear_arith)
        requires
            0 <= column,
            0 < rows,
    ;
}

/// Every position below `columns * rows` is that of one cell of the chunk.
pub proof fn lemma_chunk_position(k: int, columns: int, rows: int)
    requires
        0 <= k < columns * rows,
        0 <= rows,
    ensures
        0 <= k / rows < columns,
        0 <= k % rows < rows,
        chunk_index(k / rows, k % rows, rows) == k,
{
    assert(rows > 0) by (nonlinear_arith)
        requires
            0 <= k < columns * rows,
            0 <= rows,
    ;
    lemma_fundamental_div_mod(k, rows);
    let q = k / rows;
    let r = k % rows;
    assert(rows * q == q * rows) by (nonlinear_arith);
    assert(0 <= q < columns) by (nonlinear_arith)
        requires
            k == q * rows + r,
            0 <= r < rows,
            0 <= k < columns * rows,
    ;
}

} // verus!
