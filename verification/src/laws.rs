//! What holds of every rendering: lines of one length, one token for each
//! cell, widths that only grow with the cells, and text that depends on the
//! cells alone.

use vstd::prelude::*;
use crate::layout::{
    cols_note, diagnostic_line, diagnostic_text, diagnostic_width, diagnostic_header, ellipsis,
    full_body, full_line, full_text, lemma_width_covers_chars,
    lemma_window_width_bounds, marker_row, pad_left, row_cells, row_width, shape_text,
    shown_cols, shown_rows, spaces, width, window_width, Texts, MAX_COLS, MAX_ROWS,
};
use crate::matrix::Matrix;
use crate::text::{decimal, solid, Show};

verus! {

/// The number of tokens in a text: its maximal runs of characters other
/// than the space.
pub open spec fn token_count(s: Seq<char>) -> nat
    decreases s.len(),
{
    if s.len() == 0 {
        0
    } else if s.last() != ' ' && (s.len() == 1 || s[s.len() - 2] == ' ') {
        token_count(s.drop_last()) + 1
    } else {
        token_count(s.drop_last())
    }
}

/// A text that fits a field fills it exactly once padded.
pub proof fn lemma_pad_left_len(t: Seq<char>, w: nat)
    requires
        t.len() <= w,
    ensures
        pad_left(t, w).len() == w,
{
}

/// When each of the first `cols` texts of a row fits a field of `w`, the
/// padded cells and the spaces between them take `cols * w + (cols - 1)`
/// characters.
pub proof fn lemma_row_cells_len(row: Seq<Seq<char>>, cols: nat, w: nat)
    requires
        forall|j: int| 0 <= j < cols ==> (#[trigger] row[j]).len() <= w,
    ensures
        cols == 0 ==> row_cells(row, cols, w).len() == 0,
        cols > 0 ==> row_cells(row, cols, w).len() == cols * w + (cols - 1),
    decreases cols,
{
    if cols == 1 {
        lemma_pad_left_len(row[0], w);
        assert(cols * w == w) by (nonlinear_arith)
            requires
                cols == 1,
        ;
    } else if cols > 1 {
        lemma_row_cells_len(row, (cols - 1) as nat, w);
        lemma_pad_left_len(row[cols - 1], w);
        assert(cols * w == (cols - 1) * w + w) by (nonlinear_arith);
    }
}

/// The length that every line of the full rendering has when each of the
/// `cols` cells takes `w` characters.
pub open spec fn full_line_len(cols: nat, w: nat) -> nat {
    cols * w + cols + 2
}

/// Every line of the full rendering has the same length: each of the
/// `cols` cells takes the width of the widest cell, with a space between
/// neighbours, inside brackets and before the line's end.
pub proof fn lemma_full_lines_uniform(cells: Texts, rows: nat, cols: nat, i: int)
    requires
        0 <= i < rows,
        cols > 0,
    ensures
        full_line(cells[i], cols, window_width(cells, rows, cols)).len() == full_line_len(
            cols,
            window_width(cells, rows, cols),
        ),
{
    let w = window_width(cells, rows, cols);
    assert forall|j: int| 0 <= j < cols implies (#[trigger] cells[i][j]).len() <= w by {
        lemma_width_covers_chars(cells[i][j]);
        lemma_window_width_bounds(cells, rows, cols, i, j);
    }
    lemma_row_cells_len(cells[i], cols, w);
}

/// When every cell of the first `n` rows fits a field of `w`, the first `n`
/// lines of the full rendering take `n` times the length of one.
pub proof fn lemma_full_body_len(cells: Texts, n: nat, cols: nat, w: nat)
    requires
        cols > 0,
        forall|r: int, j: int| 0 <= r < n && 0 <= j < cols ==> (#[trigger] cells[r][j]).len() <= w,
    ensures
        full_body(cells, n, cols, w).len() == n * full_line_len(cols, w),
    decreases n,
{
    let len = full_line_len(cols, w);
    if n > 0 {
        lemma_full_body_len(cells, (n - 1) as nat, cols, w);
        assert forall|j: int| 0 <= j < cols implies (#[trigger] cells[n - 1][j]).len() <= w by {
            assert(cells[n - 1][j].len() <= w);
        }
        lemma_row_cells_len(cells[n - 1], cols, w);
        assert(n * len == (n - 1) * len + len) by (nonlinear_arith);
    } else {
        assert(n * len == 0) by (nonlinear_arith)
            requires
                n == 0,
        ;
    }
}

/// When every cell of the first `n` rows fits a field of `w`, line `i` of
/// the full rendering's body is the line of row `i`, and it stands where
/// `i` lines of that one length end.
pub proof fn lemma_full_body_line(cells: Texts, n: nat, cols: nat, w: nat, i: int)
    requires
        cols > 0,
        0 <= i < n,
        forall|r: int, j: int| 0 <= r < n && 0 <= j < cols ==> (#[trigger] cells[r][j]).len() <= w,
    ensures
        (i + 1) * full_line_len(cols, w) <= full_body(cells, n, cols, w).len(),
        full_body(cells, n, cols, w).subrange(
            i * full_line_len(cols, w),
            (i + 1) * full_line_len(cols, w),
        ) == full_line(cells[i], cols, w),
    decreases n,
{
    let len = full_line_len(cols, w);
    let before = full_body(cells, (n - 1) as nat, cols, w);
    let line = full_line(cells[n - 1], cols, w);
    lemma_full_body_len(cells, (n - 1) as nat, cols, w);
    lemma_full_body_len(cells, n, cols, w);
    assert(n * len == (n - 1) * len + len) by (nonlinear_arith);
    assert((i + 1) * len == i * len + len) by (nonlinear_arith);
    assert(0 <= i * len) by (nonlinear_arith)
        requires
            0 <= i,
            0 <= len,
    ;
    if i == n - 1 {
        assert((before + line).subrange(i * len, (i + 1) * len) =~= line);
    } else {
        lemma_full_body_line(cells, (n - 1) as nat, cols, w, i);
        assert((before + line).subrange(i * len, (i + 1) * len) =~= before.subrange(
            i * len,
            (i + 1) * len,
        ));
    }
}

/// The full rendering of a matrix with cells is its header line and then
/// lines of one length, one for each row in order: line `i` is the line of
/// row `i`, and nothing follows the last.
pub proof fn lemma_full_text_lines(cells: Texts, rows: nat, cols: nat, i: int)
    requires
        cols > 0,
        0 <= i < rows,
    ensures
        ({
            let text = full_text(cells, rows, cols);
            let head = shape_text(rows, cols).len() + 9;
            let len = full_line_len(cols, window_width(cells, rows, cols));
            &&& text.len() == head + rows * len
            &&& 0 <= head + i * len <= head + (i + 1) * len <= text.len()
            &&& text.subrange(head + i * len, head + (i + 1) * len) == full_line(
                cells[i],
                cols,
                window_width(cells, rows, cols),
            )
        }),
{
    let w = window_width(cells, rows, cols);
    let text = full_text(cells, rows, cols);
    let head = shape_text(rows, cols) + " Matrix:\n"@;
    let body = full_body(cells, rows, cols, w);
    let len = full_line_len(cols, w);
    reveal_strlit(" Matrix:\n");
    assert forall|r: int, j: int| 0 <= r < rows && 0 <= j < cols implies (
    #[trigger] cells[r][j]).len() <= w by {
        lemma_width_covers_chars(cells[r][j]);
        lemma_window_width_bounds(cells, rows, cols, r, j);
    }
    lemma_full_body_len(cells, rows, cols, w);
    lemma_full_body_line(cells, rows, cols, w, i);
    assert(0 <= i * len) by (nonlinear_arith)
        requires
            0 <= i,
            0 <= len,
    ;
    assert((i + 1) * len == i * len + len) by (nonlinear_arith);
    assert(text =~= head + body);
    assert((head + body).subrange(head.len() + i * len, head.len() + (i + 1) * len)
        =~= body.subrange(i * len, (i + 1) * len));
}

/// Every line of the diagnostic rendering that shows a row has the same
/// length, and the cells of the line of markers take as much room as the
/// cells of any shown row.
pub proof fn lemma_diagnostic_lines_uniform(cells: Texts, rows: nat, cols: nat, i: int)
    requires
        0 <= i < shown_rows(rows),
        cols > 0,
    ensures
        diagnostic_line(cells[i], cols, diagnostic_width(cells, rows, cols)).len() == shown_cols(
            cols,
        ) * diagnostic_width(cells, rows, cols) + (shown_cols(cols) - 1) + cols_note(cols).len()
            + 3,
        row_cells(
            marker_row(shown_cols(cols)),
            shown_cols(cols),
            diagnostic_width(cells, rows, cols),
        ).len() == row_cells(
            cells[i],
            shown_cols(cols),
            diagnostic_width(cells, rows, cols),
        ).len(),
{
    let w = diagnostic_width(cells, rows, cols);
    let sc = shown_cols(cols);
    assert forall|j: int| 0 <= j < sc implies (#[trigger] cells[i][j]).len() <= w by {
        lemma_width_covers_chars(cells[i][j]);
        lemma_window_width_bounds(cells, shown_rows(rows), sc, i, j);
    }
    lemma_row_cells_len(cells[i], sc, w);
    lemma_width_covers_chars(ellipsis());
    lemma_row_cells_len(marker_row(sc), sc, w);
}

/// A space at the end of a text adds no token.
proof fn lemma_tokens_push_space(s: Seq<char>)
    ensures
        token_count(s.push(' ')) == token_count(s),
{
    assert(s.push(' ').drop_last() =~= s);
}

/// Spaces at the end of a text add no token.
proof fn lemma_tokens_append_spaces(s: Seq<char>, n: nat)
    ensures
        token_count(s + spaces(n)) == token_count(s),
    decreases n,
{
    if n == 0 {
        assert(s + spaces(0) =~= s);
    } else {
        lemma_tokens_append_spaces(s, (n - 1) as nat);
        lemma_tokens_push_space(s + spaces((n - 1) as nat));
        assert((s + spaces((n - 1) as nat)).push(' ') =~= s + spaces(n));
    }
}

/// The first `k` characters of a solid text, set after a text that is
/// empty or ends in a space, add one token.
proof fn lemma_tokens_append_prefix(s: Seq<char>, t: Seq<char>, k: nat)
    requires
        s.len() == 0 || s.last() == ' ',
        solid(t),
        1 <= k <= t.len(),
    ensures
        token_count(s + t.take(k as int)) == token_count(s) + 1,
    decreases k,
{
    let whole = s + t.take(k as int);
    if k == 1 {
        assert(whole.drop_last() =~= s);
    } else {
        lemma_tokens_append_prefix(s, t, (k - 1) as nat);
        assert(whole.drop_last() =~= s + t.take(k - 1));
        assert(whole[whole.len() - 2] == t[k - 2]);
    }
}

/// A padded solid text, set after a text that is empty or ends in a space,
/// adds one token.
proof fn lemma_tokens_append_padded(s: Seq<char>, t: Seq<char>, w: nat)
    requires
        s.len() == 0 || s.last() == ' ',
        solid(t),
    ensures
        token_count(s + pad_left(t, w)) == token_count(s) + 1,
{
    let n: nat = if t.len() < w {
        (w - t.len()) as nat
    } else {
        0
    };
    let front = s + spaces(n);
    lemma_tokens_append_spaces(s, n);
    assert(front.len() == 0 || front.last() == ' ');
    lemma_tokens_append_prefix(front, t, t.len());
    assert(t.take(t.len() as int) =~= t);
    assert(front + t =~= s + pad_left(t, w));
}

/// When each of the first `cols` texts of a row is solid, what stands
/// between the brackets of its line splits into exactly `cols` tokens.
pub proof fn lemma_row_tokens(row: Seq<Seq<char>>, cols: nat, w: nat)
    requires
        forall|j: int| 0 <= j < cols ==> solid(#[trigger] row[j]),
    ensures
        token_count(row_cells(row, cols, w)) == cols,
    decreases cols,
{
    if cols == 1 {
        lemma_tokens_append_padded(Seq::empty(), row[0], w);
        assert(Seq::<char>::empty() + pad_left(row[0], w) =~= pad_left(row[0], w));
    } else if cols > 1 {
        let before = row_cells(row, (cols - 1) as nat, w);
        lemma_row_tokens(row, (cols - 1) as nat, w);
        lemma_tokens_push_space(before);
        assert(before.push(' ') =~= before + seq![' ']);
        lemma_tokens_append_padded(before.push(' '), row[cols - 1], w);
    }
}

/// A row's width does not shrink when none of its texts gets shorter.
pub proof fn lemma_row_width_monotone(a: Seq<Seq<char>>, b: Seq<Seq<char>>, cols: nat)
    requires
        forall|j: int| 0 <= j < cols ==> width(#[trigger] a[j]) <= width(b[j]),
    ensures
        row_width(a, cols) <= row_width(b, cols),
    decreases cols,
{
    if cols > 0 {
        lemma_row_width_monotone(a, b, (cols - 1) as nat);
        assert(width(a[cols - 1]) <= width(b[cols - 1]));
    }
}

/// The width shared by all cells does not shrink when no cell's text gets
/// shorter in display length.
pub proof fn lemma_window_width_monotone(a: Texts, b: Texts, rows: nat, cols: nat)
    requires
        forall|i: int, j: int|
            0 <= i < rows && 0 <= j < cols ==> width(#[trigger] a[i][j]) <= width(b[i][j]),
    ensures
        window_width(a, rows, cols) <= window_width(b, rows, cols),
    decreases rows,
{
    if rows > 0 {
        lemma_window_width_monotone(a, b, (rows - 1) as nat, cols);
        assert forall|j: int| 0 <= j < cols implies width(#[trigger] a[rows - 1][j]) <= width(
            b[rows - 1][j],
        ) by {
            assert(width(a[rows - 1][j]) <= width(b[rows - 1][j]));
        }
        lemma_row_width_monotone(a[rows - 1], b[rows - 1], cols);
    }
}

/// After a change that makes no cell's text shorter in display length, the
/// shared width is no smaller than before, and the lines of the full
/// rendering are again of one length.
pub proof fn lemma_wider_cells_stay_aligned(a: Texts, b: Texts, rows: nat, cols: nat)
    requires
        cols > 0,
        forall|i: int, j: int|
            0 <= i < rows && 0 <= j < cols ==> width(#[trigger] a[i][j]) <= width(b[i][j]),
    ensures
        window_width(a, rows, cols) <= window_width(b, rows, cols),
        forall|i: int, k: int|
            0 <= i < rows && 0 <= k < rows ==> (#[trigger] full_line(
                b[i],
                cols,
                window_width(b, rows, cols),
            )).len() == (#[trigger] full_line(b[k], cols, window_width(b, rows, cols))).len(),
{
    lemma_window_width_monotone(a, b, rows, cols);
    let w = window_width(b, rows, cols);
    assert forall|i: int, k: int| 0 <= i < rows && 0 <= k < rows implies (#[trigger] full_line(
        b[i],
        cols,
        w,
    )).len() == (#[trigger] full_line(b[k], cols, w)).len() by {
        lemma_full_lines_uniform(b, rows, cols, i);
        lemma_full_lines_uniform(b, rows, cols, k);
    }
}

/// The marker takes three bytes, so no cell of the diagnostic rendering is
/// narrower than three characters.
pub proof fn lemma_marker_width(cells: Texts, rows: nat, cols: nat)
    ensures
        width(ellipsis()) == 3,
        diagnostic_width(cells, rows, cols) >= 3,
{
    let e = ellipsis();
    assert(e.drop_first() =~= Seq::<char>::empty());
    assert(vstd::utf8::encode_utf8(e.drop_first()).len() == 0);
    assert(e[0] as u32 == 0x2026);
    assert(vstd::utf8::encode_scalar(0x2026u32).len() == 3);
}

/// The diagnostic rendering shows no more rows than `MAX_ROWS` and no more
/// columns than `MAX_COLS`, and all of them where the matrix has no more.
pub proof fn lemma_window_bounded(rows: nat, cols: nat)
    ensures
        shown_rows(rows) <= MAX_ROWS,
        shown_cols(cols) <= MAX_COLS,
        rows <= MAX_ROWS ==> shown_rows(rows) == rows,
        cols <= MAX_COLS ==> shown_cols(cols) == cols,
{
}

/// Decimal notation holds no line end.
pub proof fn lemma_decimal_one_line(n: nat)
    ensures
        forall|i: int| 0 <= i < decimal(n).len() ==> decimal(n)[i] != '\n',
    decreases n,
{
    if n >= 10 {
        lemma_decimal_one_line(n / 10);
        let front = decimal(n / 10);
        assert forall|i: int| 0 <= i < decimal(n).len() implies decimal(n)[i] != '\n' by {
            if i < front.len() {
                assert(decimal(n)[i] == front[i]);
            }
        }
    }
}

/// The full rendering of a matrix without cells is a single line: the
/// shape, then ` Matrix: []`, then the line's end and nothing after it.
pub proof fn lemma_full_text_without_cells(cells: Texts, rows: nat, cols: nat)
    requires
        rows == 0 || cols == 0,
    ensures
        full_text(cells, rows, cols) == shape_text(rows, cols) + " Matrix: []\n"@,
        full_text(cells, rows, cols).last() == '\n',
        forall|i: int|
            0 <= i < full_text(cells, rows, cols).len() - 1 ==> full_text(cells, rows, cols)[i]
                != '\n',
{
    reveal_strlit(" Matrix: []\n");
    lemma_decimal_one_line(rows);
    lemma_decimal_one_line(cols);
}

/// The diagnostic rendering of a matrix without cells is the header and
/// the line `[]`, whatever the shape.
pub proof fn lemma_diagnostic_text_without_cells(cells: Texts, rows: nat, cols: nat)
    requires
        rows == 0 || cols == 0,
    ensures
        diagnostic_text(cells, rows, cols) == diagnostic_header(rows, cols) + seq!['[', ']', '\n'],
{
    reveal_strlit("[]\n");
    assert("[]\n"@ =~= seq!['[', ']', '\n']);
}

/// Two matrices with the same cells have the same texts, and so the same
/// renderings.
pub proof fn lemma_same_cells_same_text<T: Show, const R: usize, const C: usize>(
    a: Matrix<T, R, C>,
    b: Matrix<T, R, C>,
)
    requires
        a@ == b@,
    ensures
        a.texts() == b.texts(),
        full_text(a.texts(), R as nat, C as nat) == full_text(b.texts(), R as nat, C as nat),
        diagnostic_text(a.texts(), R as nat, C as nat) == diagnostic_text(
            b.texts(),
            R as nat,
            C as nat,
        ),
{
    assert(a.texts() =~= b.texts());
}

} // verus!
