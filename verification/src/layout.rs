//! What the two renderings look like, as functions from the texts of the
//! cells to the text of the whole, and the facts about widths that the
//! renderings rest on.

use vstd::prelude::*;
use vstd::utf8::*;
use crate::text::decimal;

verus! {

/// The texts of a grid's cells, row by row.
pub type Texts = Seq<Seq<Seq<char>>>;

/// Most rows that the diagnostic rendering shows.
pub const MAX_ROWS: usize = 6;

/// Most columns that the diagnostic rendering shows.
pub const MAX_COLS: usize = 8;

/// The marker that stands for what the diagnostic rendering leaves out.
pub open spec fn ellipsis() -> Seq<char> {
    seq!['\u{2026}']
}

/// The display length of a text: the number of bytes it takes in UTF-8.
pub open spec fn width(t: Seq<char>) -> nat {
    encode_utf8(t).len()
}

/// A run of `n` spaces.
pub open spec fn spaces(n: nat) -> Seq<char> {
    Seq::new(n, |i: int| ' ')
}

/// `t` moved to the right edge of a field of `w` characters; a text that
/// fills the field or exceeds it stays as it is.
pub open spec fn pad_left(t: Seq<char>, w: nat) -> Seq<char> {
    if t.len() < w {
        spaces((w - t.len()) as nat) + t
    } else {
        t
    }
}

/// The larger of two numbers.
pub open spec fn larger(a: nat, b: nat) -> nat {
    if a < b {
        b
    } else {
        a
    }
}

/// The greatest display length among the first `cols` texts of a row; 0 for
/// none.
pub open spec fn row_width(row: Seq<Seq<char>>, cols: nat) -> nat
    decreases cols,
{
    if cols == 0 {
        0
    } else {
        larger(row_width(row, (cols - 1) as nat), width(row[cols - 1]))
    }
}

/// The greatest display length among the cells of the window made of the
/// first `rows` rows and the first `cols` columns; 0 for an empty window.
pub open spec fn window_width(cells: Texts, rows: nat, cols: nat) -> nat
    decreases rows,
{
    if rows == 0 {
        0
    } else {
        larger(window_width(cells, (rows - 1) as nat, cols), row_width(cells[rows - 1], cols))
    }
}

/// The first `cols` texts of a row, each padded to `w` and parted from the
/// one before it by a single space.
pub open spec fn row_cells(row: Seq<Seq<char>>, cols: nat, w: nat) -> Seq<char>
    decreases cols,
{
    if cols == 0 {
        Seq::empty()
    } else if cols == 1 {
        pad_left(row[0], w)
    } else {
        row_cells(row, (cols - 1) as nat, w) + seq![' '] + pad_left(row[cols - 1], w)
    }
}

/// A row of `cols` markers, the stand-in for the rows left out.
pub open spec fn marker_row(cols: nat) -> Seq<Seq<char>> {
    Seq::new(cols, |j: int| ellipsis())
}

/// One line of the full rendering: the row in brackets.
pub open spec fn full_line(row: Seq<Seq<char>>, cols: nat, w: nat) -> Seq<char> {
    seq!['['] + row_cells(row, cols, w) + seq![']', '\n']
}

/// The first `rows` lines of the full rendering, in order.
pub open spec fn full_body(cells: Texts, rows: nat, cols: nat, w: nat) -> Seq<char>
    decreases rows,
{
    if rows == 0 {
        Seq::empty()
    } else {
        full_body(cells, (rows - 1) as nat, cols, w) + full_line(cells[rows - 1], cols, w)
    }
}

/// The shape as the full rendering names it: rows, an `x`, columns.
pub open spec fn shape_text(rows: nat, cols: nat) -> Seq<char> {
    decimal(rows) + seq!['x'] + decimal(cols)
}

/// The full rendering of a grid of `rows` by `cols` cells.
///
/// A grid without cells is a single line that names the shape and ends in
/// `[]`. Any other grid is a header line and one line for each row, every
/// cell padded to the greatest display length in the grid.
pub open spec fn full_text(cells: Texts, rows: nat, cols: nat) -> Seq<char> {
    if rows == 0 || cols == 0 {
        shape_text(rows, cols) + " Matrix: []\n"@
    } else {
        shape_text(rows, cols) + " Matrix:\n"@ + full_body(
            cells,
            rows,
            cols,
            window_width(cells, rows, cols),
        )
    }
}

/// How many rows the diagnostic rendering shows of `rows`.
pub open spec fn shown_rows(rows: nat) -> nat {
    if rows < MAX_ROWS {
        rows
    } else {
        MAX_ROWS as nat
    }
}

/// How many columns the diagnostic rendering shows of `cols`.
pub open spec fn shown_cols(cols: nat) -> nat {
    if cols < MAX_COLS {
        cols
    } else {
        MAX_COLS as nat
    }
}

/// The first line of the diagnostic rendering: the shape, and a note for
/// each direction in which cells are left out.
pub open spec fn diagnostic_header(rows: nat, cols: nat) -> Seq<char> {
    "Matrix<_, "@ + decimal(rows) + ", "@ + decimal(cols) + "> { rows: "@ + decimal(rows)
        + ", cols: "@ + decimal(cols) + (if shown_rows(rows) < rows {
        ", rows_truncated"@
    } else {
        Seq::empty()
    }) + (if shown_cols(cols) < cols {
        ", cols_truncated"@
    } else {
        Seq::empty()
    }) + " }\n"@
}

/// What follows the cells of a diagnostic line when columns are left out:
/// a marker and the number of columns that it stands for. Empty when every
/// column is shown.
pub open spec fn cols_note(cols: nat) -> Seq<char> {
    if shown_cols(cols) < cols {
        seq![' '] + ellipsis() + " (+"@ + decimal((cols - shown_cols(cols)) as nat) + " cols)"@
    } else {
        Seq::empty()
    }
}

/// The width of a cell in the diagnostic rendering: the greatest display
/// length in the shown window, and at least that of the marker.
pub open spec fn diagnostic_width(cells: Texts, rows: nat, cols: nat) -> nat {
    larger(window_width(cells, shown_rows(rows), shown_cols(cols)), width(ellipsis()))
}

/// One line of the diagnostic rendering: a row of the shown window.
pub open spec fn diagnostic_line(row: Seq<Seq<char>>, cols: nat, w: nat) -> Seq<char> {
    seq!['['] + row_cells(row, shown_cols(cols), w) + cols_note(cols) + seq![']', '\n']
}

/// The first `rows` lines of the diagnostic rendering, in order.
pub open spec fn diagnostic_body(cells: Texts, rows: nat, cols: nat, w: nat) -> Seq<char>
    decreases rows,
{
    if rows == 0 {
        Seq::empty()
    } else {
        diagnostic_body(cells, (rows - 1) as nat, cols, w) + diagnostic_line(
            cells[rows - 1],
            cols,
            w,
        )
    }
}

/// The line that stands for the rows left out: a marker in each shown
/// column, and after the bracket the number of rows that it stands for.
/// Empty when every row is shown.
pub open spec fn rows_note(rows: nat, cols: nat, w: nat) -> Seq<char> {
    if shown_rows(rows) < rows {
        seq!['['] + row_cells(marker_row(shown_cols(cols)), shown_cols(cols), w) + cols_note(cols)
            + "] (+"@ + decimal((rows - shown_rows(rows)) as nat) + " rows)\n"@
    } else {
        Seq::empty()
    }
}

/// The diagnostic rendering of a grid of `rows` by `cols` cells.
///
/// After the header, a grid without cells is the line `[]`. Any other grid
/// is one line for each shown row, and one more if rows are left out.
pub open spec fn diagnostic_text(cells: Texts, rows: nat, cols: nat) -> Seq<char> {
    if rows == 0 || cols == 0 {
        diagnostic_header(rows, cols) + "[]\n"@
    } else {
        diagnostic_header(rows, cols) + diagnostic_body(
            cells,
            shown_rows(rows),
            cols,
            diagnostic_width(cells, rows, cols),
        ) + rows_note(rows, cols, diagnostic_width(cells, rows, cols))
    }
}

/// A text never has more characters than bytes.
pub proof fn lemma_width_covers_chars(t: Seq<char>)
    ensures
        t.len() <= width(t),
    decreases t.len(),
{
    if t.len() > 0 {
        lemma_width_covers_chars(t.drop_first());
        assert(encode_scalar(t[0] as u32).len() >= 1);
    }
}

/// The width of a row's prefix bounds each of its texts.
pub proof fn lemma_row_width_bounds(row: Seq<Seq<char>>, cols: nat, j: int)
    requires
        0 <= j < cols,
    ensures
        width(row[j]) <= row_width(row, cols),
    decreases cols,
{
    if j < cols - 1 {
        lemma_row_width_bounds(row, (cols - 1) as nat, j);
    }
}

/// The width of a window bounds each of its cells.
pub proof fn lemma_window_width_bounds(cells: Texts, rows: nat, cols: nat, i: int, j: int)
    requires
        0 <= i < rows,
        0 <= j < cols,
    ensures
        width(cells[i][j]) <= window_width(cells, rows, cols),
    decreases rows,
{
    if i < rows - 1 {
        lemma_window_width_bounds(cells, (rows - 1) as nat, cols, i, j);
    } else {
        lemma_row_width_bounds(cells[i], cols, j);
    }
}

/// The width of a window that holds a cell is the display length of one of
/// its cells.
pub proof fn lemma_window_width_attained(cells: Texts, rows: nat, cols: nat)
    requires
        rows > 0,
        cols > 0,
    ensures
        exists|i: int, j: int|
            0 <= i < rows && 0 <= j < cols && width(#[trigger] cells[i][j]) == window_width(
                cells,
                rows,
                cols,
            ),
    decreases rows,
{
    let last = cells[rows - 1];
    lemma_row_width_attained(last, cols);
    let jl = choose|j: int| 0 <= j < cols && width(#[trigger] last[j]) == row_width(last, cols);
    if rows == 1 || window_width(cells, (rows - 1) as nat, cols) < row_width(last, cols) {
        assert(rows == 1 ==> window_width(cells, 0, cols) == 0);
        assert(width(cells[rows - 1][jl]) == window_width(cells, rows, cols));
    } else {
        lemma_window_width_attained(cells, (rows - 1) as nat, cols);
        let (i, j) = choose|i: int, j: int|
            0 <= i < rows - 1 && 0 <= j < cols && width(#[trigger] cells[i][j]) == window_width(
                cells,
                (rows - 1) as nat,
                cols,
            );
        assert(width(cells[i][j]) == window_width(cells, rows, cols));
    }
}

/// The width of a row's prefix that holds a text is the display length of
/// one of its texts.
pub proof fn lemma_row_width_attained(row: Seq<Seq<char>>, cols: nat)
    requires
        cols > 0,
    ensures
        exists|j: int| 0 <= j < cols && width(#[trigger] row[j]) == row_width(row, cols),
    decreases cols,
{
    if cols == 1 || row_width(row, (cols - 1) as nat) < width(row[cols - 1]) {
        assert(cols == 1 ==> row_width(row, 0) == 0);
        assert(width(row[cols - 1]) == row_width(row, cols));
    } else {
        lemma_row_width_attained(row, (cols - 1) as nat);
        let j = choose|j: int|
            0 <= j < cols - 1 && width(#[trigger] row[j]) == row_width(row, (cols - 1) as nat);
        assert(width(row[j]) == row_width(row, cols));
    }
}

} // verus!
