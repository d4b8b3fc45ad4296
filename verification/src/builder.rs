//! Building an icon from the text of a file.

use crate::error::{DecodeError, DecodeErrorView};
use crate::format::{decode, decoded};
use crate::icon::{IconView, SimpleIcon};
use crate::layout::{
    band_columns, band_start, banded_grid, banded_index, grid_of, lemma_banded_index_bound,
    lemma_row_major_index_bound, row_major_grid, row_major_index, BAND_WIDTH,
};
use vstd::prelude::*;

verus! {

/// Builder for [`SimpleIcon`] values: it is told where the file lies, is
/// handed the text of that file, and then holds the icon decoded from it.
pub struct SimpleIconBuilder {
    filename: String,
    obj: SimpleIcon,
}

/// Mathematical value of a [`SimpleIconBuilder`].
pub struct BuilderView {
    pub filename: Seq<char>,
    pub icon: IconView,
}

impl View for SimpleIconBuilder {
    type V = BuilderView;

    closed spec fn view(&self) -> BuilderView {
        BuilderView { filename: self.filename@, icon: self.obj@ }
    }
}

/// The icon that a builder holds before any file was decoded: named
/// `EMPTY`, of version 0, without a single cell.
pub open spec fn placeholder_icon() -> IconView {
    IconView {
        name: seq!['E', 'M', 'P', 'T', 'Y'],
        file_version: 0,
        width: 0,
        height: 0,
        pixels: Seq::empty(),
    }
}

impl SimpleIconBuilder {
    /// A builder without a file name, holding the placeholder icon.
    pub fn new() -> (builder: SimpleIconBuilder)
        ensures
            builder@.filename == Seq::<char>::empty(),
            builder@.icon == placeholder_icon(),
    {
        proof {
            reveal_strlit("EMPTY");
        }
        let name = "EMPTY".to_owned();
        let data: Vec<Vec<char>> = Vec::new();
        assert(name@ =~= placeholder_icon().name);
        assert(grid_of(data@) =~= placeholder_icon().pixels);
        SimpleIconBuilder { filename: String::new(), obj: SimpleIcon::new(name, 0, 0, 0, data) }
    }

    /// Sets the name of the file that the icon is to be loaded from.
    pub fn filename(&mut self, v_filename: String)
        ensures
            final(self)@.filename == v_filename@,
            final(self)@.icon == old(self)@.icon,
    {
        self.filename = v_filename;
    }

    /// The name of the file that the icon is to be loaded from.
    pub fn source(&self) -> (filename: &str)
        ensures
            filename@ == self@.filename,
    {
        self.filename.as_str()
    }

    /// The icon that the builder holds: the one decoded last, or the
    /// placeholder where none was.
    pub fn icon(&self) -> (icon: &SimpleIcon)
        ensures
            icon@ == self@.icon,
    {
        &self.obj
    }

    /// Decodes the text of a file and, where that succeeds, keeps the icon.
    /// A text that is refused leaves the builder as it was.
    pub fn parse_header(&mut self, file_content: &str) -> (result: Result<(), DecodeError>)
        ensures
            final(self)@.filename == old(self)@.filename,
            (match result {
                Ok(()) => decoded(file_content@) == Ok::<IconView, DecodeErrorView>(
                    final(self)@.icon,
                ),
                Err(e) => {
                    &&& decoded(file_content@) == Err::<IconView, DecodeErrorView>(e@)
                    &&& final(self)@.icon == old(self)@.icon
                },
            }),
    {
        match decode(file_content) {
            Ok(icon) => {
                self.obj = icon;
                Ok(())
            },
            Err(e) => Err(e),
        }
    }

    /// Reads a payload in the row-major layout: `width * height`
    /// characters, the rows one after the other. A payload with fewer
    /// characters is refused as truncated; characters beyond the grid are
    /// ignored.
    pub fn parse_data(width: u32, height: u32, file_data: Vec<char>) -> (result: Result<
        Vec<Vec<char>>,
        DecodeError,
    >)
        ensures
            (match result {
                Ok(data) => {
                    &&& file_data@.len() >= width * height
                    &&& grid_of(data@) == row_major_grid(file_data@, width as nat, height as nat)
                },
                Err(e) => {
                    &&& file_data@.len() < width * height
                    &&& e@ == (DecodeErrorView::TruncatedData { position: file_data@.len() })
                },
            }),
    {
        let available = file_data.len();
        assert(width * height <= u64::MAX) by (nonlinear_arith)
            requires
                width <= u32::MAX,
                height <= u32::MAX,
        ;
        let needed: u64 = (width as u64) * (height as u64);
        if (available as u64) < needed {
            return Err(DecodeError::TruncatedData { position: available });
        }
        let columns = width as usize;
        let rows = height as usize;
        let mut offset: usize = 0;
        let mut data: Vec<Vec<char>> = Vec::new();
        let mut row: usize = 0;
        while row < rows
            invariant
                columns == width,
                rows == height,
                available == file_data@.len(),
                columns * rows <= available,
                row <= rows,
                offset == row * columns,
                data@.len() == row,
                forall|r: int|
                    0 <= r < row ==> (#[trigger] data@[r])@ == row_major_grid(
                        file_data@,
                        width as nat,
                        height as nat,
                    )[r],
            decreases rows - row,
        {
            let mut line: Vec<char> = Vec::new();
            let mut col: usize = 0;
            while col < columns
                invariant
                    columns == width,
                    rows == height,
                    available == file_data@.len(),
                    columns * rows <= available,
                    row < rows,
                    col <= columns,
                    offset == row * columns + col,
                    line@.len() == col,
                    forall|c: int|
                        0 <= c < col ==> #[trigger] line@[c] == file_data@[row_major_index(
                            width as nat,
                            row as nat,
                            c as nat,
                        ) as int],
                decreases columns - col,
            {
                proof {
                    lemma_row_major_index_bound(
                        columns as nat,
                        rows as nat,
                        row as nat,
                        col as nat,
                    );
                }
                line.push(file_data[offset]);
                offset += 1;
                col += 1;
            }
            assert(line@ =~= row_major_grid(file_data@, width as nat, height as nat)[row as int]);
            assert(offset == (row + 1) * columns) by (nonlinear_arith)
                requires
                    offset == row * columns + columns,
            ;
            data.push(line);
            row += 1;
        }
        assert(grid_of(data@) =~= row_major_grid(file_data@, width as nat, height as nat));
        Ok(data)
    }

    /// Reads a payload in the banded layout: the grid is cut into bands of
    /// eight columns, the last one narrower where the width is no multiple
    /// of eight; the payload holds the bands from left to right, and each
    /// band row by row. A payload with fewer than `width * height`
    /// characters is refused as truncated; characters beyond the grid are
    /// ignored.
    pub fn parse_data_v2(width: u32, height: u32, file_data: Vec<char>) -> (result: Result<
        Vec<Vec<char>>,
        DecodeError,
    >)
        ensures
            (match result {
                Ok(data) => {
                    &&& file_data@.len() >= width * height
                    &&& grid_of(data@) == banded_grid(file_data@, width as nat, height as nat)
                },
                Err(e) => {
                    &&& file_data@.len() < width * height
                    &&& e@ == (DecodeErrorView::TruncatedData { position: file_data@.len() })
                },
            }),
    {
        let available = file_data.len();
        assert(width * height <= u64::MAX) by (nonlinear_arith)
            requires
                width <= u32::MAX,
                height <= u32::MAX,
        ;
        let needed: u64 = (width as u64) * (height as u64);
        if (available as u64) < needed {
            return Err(DecodeError::TruncatedData { position: available });
        }
        let columns = width as usize;
        let rows = height as usize;
        let ghost target = banded_grid(file_data@, width as nat, height as nat);
        let mut data: Vec<Vec<char>> = Vec::new();
        let mut row: usize = 0;
        while row < rows
            invariant
                row <= rows,
                data@.len() == row,
                forall|r: int| 0 <= r < row ==> (#[trigger] data@[r])@.len() == 0,
            decreases rows - row,
        {
            data.push(Vec::new());
            row += 1;
        }
        assert forall|r: int| 0 <= r < rows implies (#[trigger] data@[r])@ == target[r].take(0) by {
            assert(data@[r]@ =~= target[r].take(0));
        }
        let mut char_pos: usize = 0;
        let mut start: usize = 0;
        while start < columns
            invariant
                columns == width,
                rows == height,
                available == file_data@.len(),
                columns * rows <= available,
                target == banded_grid(file_data@, width as nat, height as nat),
                start <= columns,
                start % BAND_WIDTH == 0 || start == columns,
                char_pos == start * rows,
                data@.len() == rows,
                forall|r: int|
                    0 <= r < rows ==> (#[trigger] data@[r])@ == target[r].take(start as int),
            decreases columns - start,
        {
            let end = if columns - start < BAND_WIDTH {
                columns
            } else {
                start + BAND_WIDTH
            };
            let mut row: usize = 0;
            while row < rows
                invariant
                    columns == width,
                    rows == height,
                    available == file_data@.len(),
                    columns * rows <= available,
                    target == banded_grid(file_data@, width as nat, height as nat),
                    start < end <= columns,
                    start % BAND_WIDTH == 0,
                    end - start == band_columns(columns as nat, start as nat),
                    row <= rows,
                    char_pos == start * rows + row * (end - start),
                    data@.len() == rows,
                    forall|r: int|
                        0 <= r < row ==> (#[trigger] data@[r])@ == target[r].take(end as int),
                    forall|r: int|
                        row <= r < rows ==> (#[trigger] data@[r])@ == target[r].take(start as int),
                decreases rows - row,
            {
                let mut col: usize = start;
                while col < end
                    invariant
                        columns == width,
                        rows == height,
                        available == file_data@.len(),
                        columns * rows <= available,
                        target == banded_grid(file_data@, width as nat, height as nat),
                        start <= col <= end <= columns,
                        start % BAND_WIDTH == 0,
                        end - start == band_columns(columns as nat, start as nat),
                        row < rows,
                        char_pos == start * rows + row * (end - start) + (col - start),
                        data@.len() == rows,
                        forall|r: int|
                            0 <= r < row ==> (#[trigger] data@[r])@ == target[r].take(end as int),
                        data@[row as int]@ == target[row as int].take(col as int),
                        forall|r: int|
                            row < r < rows ==> (#[trigger] data@[r])@ == target[r].take(
                                start as int,
                            ),
                    decreases end - col,
                {
                    proof {
                        assert(band_start(col as nat) == start);
                        assert(band_columns(columns as nat, col as nat) == end - start);
                        assert(banded_index(columns as nat, rows as nat, row as nat, col as nat)
                            == char_pos);
                        lemma_banded_index_bound(
                            columns as nat,
                            rows as nat,
                            row as nat,
                            col as nat,
                        );
                    }
                    data[row].push(file_data[char_pos]);
                    assert(data@[row as int]@ =~= target[row as int].take(col + 1));
                    char_pos += 1;
                    col += 1;
                }
                assert(char_pos == start * rows + (row + 1) * (end - start)) by (nonlinear_arith)
                    requires
                        char_pos == start * rows + row * (end - start) + (end - start),
                ;
                row += 1;
            }
            assert(char_pos == end * rows) by (nonlinear_arith)
                requires
                    char_pos == start * rows + rows * (end - start),
            ;
            start = end;
        }
        assert(grid_of(data@) =~= target) by {
            assert forall|r: int| 0 <= r < rows implies (#[trigger] data@[r])@ == target[r] by {
                assert(target[r].take(columns as int) =~= target[r]);
            }
        }
        Ok(data)
    }
}

} // verus!
