//! The two payload layouts: which payload character lands in which cell.

use vstd::prelude::*;

verus! {

/// Number of columns in a full band of the banded layout.
pub const BAND_WIDTH: usize = 8;

/// Payload index of cell (`row`, `col`) in the row-major layout: the rows
/// follow one another, each `width` characters long.
pub open spec fn row_major_index(width: nat, row: nat, col: nat) -> nat {
    row * width + col
}

/// First column of the band that holds column `col`.
pub open spec fn band_start(col: nat) -> nat {
    (col - col % (BAND_WIDTH as nat)) as nat
}

/// Number of columns of the band that holds column `col`: eight, or what is
/// left of the width for the last band.
pub open spec fn band_columns(width: nat, col: nat) -> nat {
    if width - band_start(col) < BAND_WIDTH {
        (width - band_start(col)) as nat
    } else {
        BAND_WIDTH as nat
    }
}

/// Payload index of cell (`row`, `col`) in the banded layout. The bands to
/// the left are complete and hold `band_start(col) * height` characters;
/// inside its band the cell is found row by row.
pub open spec fn banded_index(width: nat, height: nat, row: nat, col: nat) -> nat {
    band_start(col) * height + row * band_columns(width, col) + (col - band_start(col)) as nat
}

/// The grid of `height` rows and `width` columns read from `payload` in the
/// row-major layout.
pub open spec fn row_major_grid(payload: Seq<char>, width: nat, height: nat) -> Seq<Seq<char>> {
    Seq::new(
        height,
        |row: int|
            Seq::new(
                width,
                |col: int| payload[row_major_index(width, row as nat, col as nat) as int],
            ),
    )
}

/// The grid of `height` rows and `width` columns read from `payload` in the
/// banded layout.
pub open spec fn banded_grid(payload: Seq<char>, width: nat, height: nat) -> Seq<Seq<char>> {
    Seq::new(
        height,
        |row: int|
            Seq::new(
                width,
                |col: int| payload[banded_index(width, height, row as nat, col as nat) as int],
            ),
    )
}

/// `grid` has `height` rows of `width` cells each.
pub open spec fn well_shaped(grid: Seq<Seq<char>>, width: nat, height: nat) -> bool {
    &&& grid.len() == height
    &&& forall|row: int| 0 <= row < height ==> (#[trigger] grid[row]).len() == width
}

/// The rows of a stored grid as sequences.
pub open spec fn grid_of(rows: Seq<Vec<char>>) -> Seq<Seq<char>> {
    Seq::new(rows.len(), |row: int| rows[row]@)
}

/// The payload index of a cell of the row-major layout lies below
/// `width * height`.
pub proof fn lemma_row_major_index_bound(width: nat, height: nat, row: nat, col: nat)
    requires
        row < height,
        col < width,
    ensures
        row_major_index(width, row, col) < width * height,
{
    assert(row * width + width <= height * width) by (nonlinear_arith)
        requires
            row + 1 <= height,
    ;
}

/// The payload index of a cell of the banded layout lies below
/// `width * height`.
pub proof fn lemma_banded_index_bound(width: nat, height: nat, row: nat, col: nat)
    requires
        row < height,
        col < width,
    ensures
        banded_index(width, height, row, col) < width * height,
{
    let start = band_start(col);
    let columns = band_columns(width, col);
    assert(col - start < columns);
    assert(start + columns <= width);
    assert(row * columns + columns <= height * columns) by (nonlinear_arith)
        requires
            row + 1 <= height,
    ;
    assert(start * height + height * columns <= width * height) by (nonlinear_arith)
        requires
            start + columns <= width,
    ;
}

} // verus!
