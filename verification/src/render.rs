//! The two renderings of a matrix whose cells can be written out.

use vstd::prelude::*;
use vstd::string::*;
use crate::layout::{
    cols_note, diagnostic_body, diagnostic_header, diagnostic_line, diagnostic_text,
    diagnostic_width, ellipsis, full_body, full_text, marker_row, pad_left, row_cells, row_width,
    rows_note, shape_text, shown_cols, shown_rows, spaces, width, window_width, Texts, MAX_COLS,
    MAX_ROWS,
};
use crate::matrix::Matrix;
use crate::text::{push_decimal, Show};

verus! {

/// The display length of `s`: its length in bytes.
fn display_len(s: &str) -> (n: usize)
    ensures
        n == width(s@),
{
    s.as_bytes().len()
}

/// Appends `n` spaces to `out`.
fn push_spaces(out: &mut String, n: usize)
    ensures
        final(out)@ == old(out)@ + spaces(n as nat),
{
    let mut k: usize = 0;
    proof {
        reveal_strlit(" ");
        assert(out@ =~= old(out)@ + spaces(0));
    }
    while k < n
        invariant
            k <= n,
            out@ == old(out)@ + spaces(k as nat),
            " "@ == seq![' '],
        decreases n - k,
    {
        out.append(" ");
        k = k + 1;
        assert(out@ =~= old(out)@ + spaces(k as nat));
    }
}

/// Appends `s` to `out`, moved to the right edge of a field of `w`
/// characters.
fn push_padded(out: &mut String, s: &str, w: usize)
    ensures
        final(out)@ == old(out)@ + pad_left(s@, w as nat),
{
    let n: usize = s.unicode_len();
    if n < w {
        push_spaces(out, w - n);
    }
    out.append(s);
    assert(final(out)@ =~= old(out)@ + pad_left(s@, w as nat));
}

/// Appends to `out` a row of `cols` markers, each padded to `w`.
fn push_marker_cells(out: &mut String, cols: usize, w: usize)
    ensures
        final(out)@ == old(out)@ + row_cells(marker_row(cols as nat), cols as nat, w as nat),
{
    let mut c: usize = 0;
    proof {
        reveal_strlit(" ");
        reveal_strlit("\u{2026}");
        assert("\u{2026}"@ =~= ellipsis());
        assert(out@ =~= old(out)@ + row_cells(marker_row(cols as nat), 0, w as nat));
    }
    while c < cols
        invariant
            c <= cols,
            out@ == old(out)@ + row_cells(marker_row(cols as nat), c as nat, w as nat),
            " "@ == seq![' '],
            "\u{2026}"@ == ellipsis(),
        decreases cols - c,
    {
        if c > 0 {
            out.append(" ");
        }
        push_padded(out, "\u{2026}", w);
        c = c + 1;
        assert(out@ =~= old(out)@ + row_cells(marker_row(cols as nat), c as nat, w as nat));
    }
}

/// How many rows the diagnostic rendering shows of `rows`.
fn cap_rows(rows: usize) -> (shown: usize)
    ensures
        shown == shown_rows(rows as nat),
{
    if rows < MAX_ROWS {
        rows
    } else {
        MAX_ROWS
    }
}

/// How many columns the diagnostic rendering shows of `cols`.
fn cap_cols(cols: usize) -> (shown: usize)
    ensures
        shown == shown_cols(cols as nat),
{
    if cols < MAX_COLS {
        cols
    } else {
        MAX_COLS
    }
}

/// Appends the first line of the diagnostic rendering to `out`.
fn push_diagnostic_header(out: &mut String, rows: usize, cols: usize)
    ensures
        final(out)@ == old(out)@ + diagnostic_header(rows as nat, cols as nat),
{
    out.append("Matrix<_, ");
    push_decimal(out, rows as u64);
    out.append(", ");
    push_decimal(out, cols as u64);
    out.append("> { rows: ");
    push_decimal(out, rows as u64);
    out.append(", cols: ");
    push_decimal(out, cols as u64);
    if cap_rows(rows) < rows {
        out.append(", rows_truncated");
    }
    if cap_cols(cols) < cols {
        out.append(", cols_truncated");
    }
    out.append(" }\n");
    assert(final(out)@ =~= old(out)@ + diagnostic_header(rows as nat, cols as nat));
}

/// Appends to `out` the note on the columns left out, if any are.
fn push_cols_note(out: &mut String, cols: usize)
    ensures
        final(out)@ == old(out)@ + cols_note(cols as nat),
{
    let shown: usize = cap_cols(cols);
    if shown < cols {
        proof {
            reveal_strlit(" ");
            reveal_strlit("\u{2026}");
        }
        out.append(" ");
        out.append("\u{2026}");
        out.append(" (+");
        push_decimal(out, (cols - shown) as u64);
        out.append(" cols)");
    }
    assert(final(out)@ =~= old(out)@ + cols_note(cols as nat));
}

/// Appends to `out` the line that stands for the rows left out, if any are.
fn push_rows_note(out: &mut String, rows: usize, cols: usize, w: usize)
    ensures
        final(out)@ == old(out)@ + rows_note(rows as nat, cols as nat, w as nat),
{
    let shown: usize = cap_rows(rows);
    if shown < rows {
        proof {
            reveal_strlit("[");
        }
        out.append("[");
        push_marker_cells(out, cap_cols(cols), w);
        push_cols_note(out, cols);
        out.append("] (+");
        push_decimal(out, (rows - shown) as u64);
        out.append(" rows)\n");
    }
    assert(final(out)@ =~= old(out)@ + rows_note(rows as nat, cols as nat, w as nat));
}

impl<T: Show, const R: usize, const C: usize> Matrix<T, R, C> {
    /// The texts of the cells, row by row.
    pub open spec fn texts(&self) -> Texts {
        Seq::new(R as nat, |i: int| Seq::new(C as nat, |j: int| self@[i][j].text()))
    }

    /// The greatest display length among the first `cols` cells of row `r`.
    fn measure_row(&self, r: usize, cols: usize) -> (w: usize)
        requires
            r < R,
            cols <= C,
        ensures
            w == row_width(self.texts()[r as int], cols as nat),
    {
        let mut w: usize = 0;
        let mut c: usize = 0;
        while c < cols
            invariant
                r < R,
                c <= cols <= C,
                w == row_width(self.texts()[r as int], c as nat),
            decreases cols - c,
        {
            let s = self.get(r, c).show();
            let n: usize = display_len(s.as_str());
            if w < n {
                w = n;
            }
            c = c + 1;
        }
        w
    }

    /// The greatest display length in the window of the first `rows` rows
    /// and the first `cols` columns.
    fn measure_window(&self, rows: usize, cols: usize) -> (w: usize)
        requires
            rows <= R,
            cols <= C,
        ensures
            w == window_width(self.texts(), rows as nat, cols as nat),
    {
        let mut w: usize = 0;
        let mut r: usize = 0;
        while r < rows
            invariant
                r <= rows <= R,
                cols <= C,
                w == window_width(self.texts(), r as nat, cols as nat),
            decreases rows - r,
        {
            let n: usize = self.measure_row(r, cols);
            if w < n {
                w = n;
            }
            r = r + 1;
        }
        w
    }

    /// Appends to `out` the first `cols` cells of row `r`, each padded to
    /// `w` and parted from the one before it by a space.
    fn push_cells(&self, out: &mut String, r: usize, cols: usize, w: usize)
        requires
            r < R,
            cols <= C,
        ensures
            final(out)@ == old(out)@ + row_cells(self.texts()[r as int], cols as nat, w as nat),
    {
        let mut c: usize = 0;
        proof {
            reveal_strlit(" ");
            assert(out@ =~= old(out)@ + row_cells(self.texts()[r as int], 0, w as nat));
        }
        while c < cols
            invariant
                r < R,
                c <= cols <= C,
                out@ == old(out)@ + row_cells(self.texts()[r as int], c as nat, w as nat),
                " "@ == seq![' '],
            decreases cols - c,
        {
            if c > 0 {
                out.append(" ");
            }
            let s = self.get(r, c).show();
            push_padded(out, s.as_str(), w);
            c = c + 1;
            assert(out@ =~= old(out)@ + row_cells(self.texts()[r as int], c as nat, w as nat));
        }
    }

    /// The full rendering: a header line that names the shape, then one
    /// line for each row, every cell right-aligned in a field as wide as
    /// the longest cell of the whole matrix. A matrix without cells is the
    /// header alone, closed by `[]`.
    pub fn render_full(&self) -> (out: String)
        ensures
            out@ == full_text(self.texts(), R as nat, C as nat),
    {
        let mut out = String::new();
        push_decimal(&mut out, R as u64);
        out.append("x");
        push_decimal(&mut out, C as u64);
        proof {
            reveal_strlit("x");
            reveal_strlit("[");
            reveal_strlit("]\n");
            assert(out@ =~= shape_text(R as nat, C as nat));
        }
        if R == 0 || C == 0 {
            out.append(" Matrix: []\n");
            return out;
        }
        let w: usize = self.measure_window(R, C);
        out.append(" Matrix:\n");
        let ghost head = out@;
        let mut r: usize = 0;
        assert(out@ =~= head + full_body(self.texts(), 0, C as nat, w as nat));
        while r < R
            invariant
                r <= R,
                out@ == head + full_body(self.texts(), r as nat, C as nat, w as nat),
                "["@ == seq!['['],
                "]\n"@ == seq![']', '\n'],
            decreases R - r,
        {
            out.append("[");
            self.push_cells(&mut out, r, C, w);
            out.append("]\n");
            r = r + 1;
            assert(out@ =~= head + full_body(self.texts(), r as nat, C as nat, w as nat));
        }
        out
    }

    /// The diagnostic rendering: a header line with the shape, then at
    /// most `MAX_ROWS` rows of at most `MAX_COLS` cells, right-aligned in a
    /// field as wide as the longest shown cell and no narrower than the
    /// marker. Each line notes the columns left out; a last line of markers
    /// notes the rows left out. A matrix without cells is the header and
    /// the line `[]`.
    pub fn render_diagnostic(&self) -> (out: String)
        ensures
            out@ == diagnostic_text(self.texts(), R as nat, C as nat),
    {
        let mut out = String::new();
        push_diagnostic_header(&mut out, R, C);
        assert(out@ =~= diagnostic_header(R as nat, C as nat));
        if R == 0 || C == 0 {
            out.append("[]\n");
            return out;
        }
        let w: usize = self.measure_diagnostic();
        self.push_diagnostic_body(&mut out, w);
        push_rows_note(&mut out, R, C, w);
        out
    }

    /// The width of a cell in the diagnostic rendering.
    fn measure_diagnostic(&self) -> (w: usize)
        ensures
            w == diagnostic_width(self.texts(), R as nat, C as nat),
    {
        proof {
            reveal_strlit("\u{2026}");
            assert("\u{2026}"@ =~= ellipsis());
        }
        let w: usize = self.measure_window(cap_rows(R), cap_cols(C));
        let marker_len: usize = display_len("\u{2026}");
        if w < marker_len {
            marker_len
        } else {
            w
        }
    }

    /// Appends to `out` the lines of the shown rows, cells padded to `w`.
    fn push_diagnostic_body(&self, out: &mut String, w: usize)
        ensures
            final(out)@ == old(out)@ + diagnostic_body(
                self.texts(),
                shown_rows(R as nat),
                C as nat,
                w as nat,
            ),
    {
        let show_r: usize = cap_rows(R);
        let show_c: usize = cap_cols(C);
        let mut r: usize = 0;
        proof {
            reveal_strlit("[");
            reveal_strlit("]\n");
            assert(out@ =~= old(out)@ + diagnostic_body(self.texts(), 0, C as nat, w as nat));
        }
        while r < show_r
            invariant
                r <= show_r <= R,
                show_c <= C,
                show_c == shown_cols(C as nat),
                out@ == old(out)@ + diagnostic_body(self.texts(), r as nat, C as nat, w as nat),
                "["@ == seq!['['],
                "]\n"@ == seq![']', '\n'],
            decreases show_r - r,
        {
            let ghost before = out@;
            out.append("[");
            self.push_cells(out, r, show_c, w);
            push_cols_note(out, C);
            out.append("]\n");
            assert(out@ =~= before + diagnostic_line(self.texts()[r as int], C as nat, w as nat));
            r = r + 1;
        }
    }
}

} // verus!
