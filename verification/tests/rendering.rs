use fixed_matrix::layout::{MAX_COLS, MAX_ROWS};
use fixed_matrix::matrix::Matrix;
use fixed_matrix::text::{signed_text, unsigned_text, Show};
use rand::rngs::StdRng;
use rand::{Rng, SeedableRng};

/// The full rendering as the standard formatter lays it out.
fn expected_full<T: Show, const R: usize, const C: usize>(m: &Matrix<T, R, C>) -> String {
    if R == 0 || C == 0 {
        return format!("{}x{} Matrix: []\n", R, C);
    }
    let mut maxw = 0usize;
    for r in 0..R {
        for c in 0..C {
            maxw = maxw.max(m.get(r, c).show().len());
        }
    }
    let mut out = format!("{}x{} Matrix:\n", R, C);
    for r in 0..R {
        out.push('[');
        for c in 0..C {
            if c > 0 {
                out.push(' ');
            }
            out.push_str(&format!("{:>width$}", m.get(r, c).show(), width = maxw));
        }
        out.push_str("]\n");
    }
    out
}

/// The diagnostic rendering as the standard formatter lays it out.
fn expected_diagnostic<T: Show, const R: usize, const C: usize>(m: &Matrix<T, R, C>) -> String {
    let show_r = R.min(6);
    let show_c = C.min(8);
    let mut out = format!(
        "Matrix<_, {}, {}> {{ rows: {}, cols: {}{}{} }}\n",
        R,
        C,
        R,
        C,
        if show_r < R { ", rows_truncated" } else { "" },
        if show_c < C { ", cols_truncated" } else { "" }
    );
    if R == 0 || C == 0 {
        out.push_str("[]\n");
        return out;
    }
    let ell = "\u{2026}";
    let mut maxw = ell.len();
    for r in 0..show_r {
        for c in 0..show_c {
            maxw = maxw.max(m.get(r, c).show().len());
        }
    }
    for r in 0..show_r {
        out.push('[');
        for c in 0..show_c {
            if c > 0 {
                out.push(' ');
            }
            out.push_str(&format!("{:>width$}", m.get(r, c).show(), width = maxw));
        }
        if show_c < C {
            out.push_str(&format!(" {} (+{} cols)", ell, C - show_c));
        }
        out.push_str("]\n");
    }
    if show_r < R {
        out.push('[');
        for c in 0..show_c {
            if c > 0 {
                out.push(' ');
            }
            out.push_str(&format!("{:>width$}", ell, width = maxw));
        }
        if show_c < C {
            out.push_str(&format!(" {} (+{} cols)", ell, C - show_c));
        }
        out.push_str(&format!("] (+{} rows)\n", R - show_r));
    }
    out
}

fn random_i64<const R: usize, const C: usize>(seed: u64) -> Matrix<i64, R, C> {
    let mut rng = StdRng::seed_from_u64(seed);
    let mut m = Matrix::<i64, R, C>::new();
    for i in 0..R {
        for j in 0..C {
            let digits: u32 = rng.random_range(0..=18);
            let bound: i64 = 10i64.pow(digits);
            m.set(i, j, rng.random_range(-bound..=bound));
        }
    }
    m
}

#[test]
fn caps_are_six_rows_and_eight_columns() {
    assert_eq!(MAX_ROWS, 6);
    assert_eq!(MAX_COLS, 8);
}

#[test]
fn full_render_exact() {
    let mut m = Matrix::<i32, 2, 3>::new();
    m.set(0, 0, 1);
    m.set(0, 1, -2);
    m.set(0, 2, 30);
    m.set(1, 0, 4);
    m.set(1, 1, 5);
    m.set(1, 2, 6);
    assert_eq!(m.render_full(), "2x3 Matrix:\n[ 1 -2 30]\n[ 4  5  6]\n");
}

#[test]
fn full_render_width_is_global_not_per_column() {
    let mut m = Matrix::<u32, 2, 2>::new();
    m.set(1, 1, 12345);
    assert_eq!(m.render_full(), "2x2 Matrix:\n[    0     0]\n[    0 12345]\n");
}

#[test]
fn full_render_single_cell() {
    let m = Matrix::<u8, 1, 1>::filled(255);
    assert_eq!(m.render_full(), "1x1 Matrix:\n[255]\n");
}

#[test]
fn full_render_without_rows() {
    let m = Matrix::<i32, 0, 3>::new();
    let s = m.render_full();
    assert_eq!(s, "0x3 Matrix: []\n");
    assert_eq!(s.lines().count(), 1);
    assert!(s.contains("0x3"));
    assert!(s.trim_end().ends_with("[]"));
}

#[test]
fn full_render_without_columns() {
    let m = Matrix::<i32, 3, 0>::new();
    assert_eq!(m.render_full(), "3x0 Matrix: []\n");
}

#[test]
fn full_render_without_rows_or_columns() {
    let m = Matrix::<u64, 0, 0>::new();
    assert_eq!(m.render_full(), "0x0 Matrix: []\n");
}

#[test]
fn full_render_lines_have_one_length() {
    for seed in 0..20u64 {
        let m = random_i64::<5, 7>(seed);
        let s = m.render_full();
        let lines: Vec<&str> = s.lines().collect();
        assert_eq!(lines.len(), 6);
        for line in &lines[1..] {
            assert_eq!(line.len(), lines[1].len());
            let inner = &line[1..line.len() - 1];
            let tokens = inner.split(' ').filter(|t| !t.is_empty()).count();
            assert_eq!(tokens, 7);
        }
    }
}

#[test]
fn full_render_agrees_with_standard_formatting() {
    for seed in 0..20u64 {
        let m = random_i64::<4, 3>(seed);
        assert_eq!(m.render_full(), expected_full(&m));
        let wide = random_i64::<9, 11>(seed);
        assert_eq!(wide.render_full(), expected_full(&wide));
    }
}

#[test]
fn diagnostic_render_agrees_with_standard_formatting() {
    for seed in 0..20u64 {
        let m = random_i64::<4, 3>(seed);
        assert_eq!(m.render_diagnostic(), expected_diagnostic(&m));
        let wide = random_i64::<9, 11>(seed);
        assert_eq!(wide.render_diagnostic(), expected_diagnostic(&wide));
        let tall = random_i64::<7, 8>(seed);
        assert_eq!(tall.render_diagnostic(), expected_diagnostic(&tall));
        let long = random_i64::<6, 9>(seed);
        assert_eq!(long.render_diagnostic(), expected_diagnostic(&long));
    }
}

#[test]
fn diagnostic_render_elides_rows_and_columns() {
    let m = Matrix::<u8, 10, 10>::new();
    let s = m.render_diagnostic();
    let lines: Vec<&str> = s.lines().collect();
    assert!(lines[0].contains("rows_truncated"));
    assert!(lines[0].contains("cols_truncated"));
    assert_eq!(
        lines[0],
        "Matrix<_, 10, 10> { rows: 10, cols: 10, rows_truncated, cols_truncated }"
    );
    assert_eq!(lines.len(), 1 + 6 + 1);
    for line in &lines[1..7] {
        assert!(line.ends_with("(+2 cols)]"));
        assert_eq!(
            *line,
            "[  0   0   0   0   0   0   0   0 \u{2026} (+2 cols)]"
        );
    }
    assert!(lines[7].ends_with("(+4 rows)"));
    assert_eq!(
        lines[7],
        "[  \u{2026}   \u{2026}   \u{2026}   \u{2026}   \u{2026}   \u{2026}   \u{2026}   \u{2026} \u{2026} (+2 cols)] (+4 rows)"
    );
}

#[test]
fn diagnostic_render_below_caps() {
    let mut m = Matrix::<i32, 3, 4>::new();
    m.set(2, 3, -7);
    let s = m.render_diagnostic();
    let lines: Vec<&str> = s.lines().collect();
    assert!(!lines[0].contains("rows_truncated"));
    assert!(!lines[0].contains("cols_truncated"));
    assert_eq!(lines.len(), 4);
    assert!(!s.contains("(+"));
    assert_eq!(
        s,
        "Matrix<_, 3, 4> { rows: 3, cols: 4 }\n[  0   0   0   0]\n[  0   0   0   0]\n[  0   0   0  -7]\n"
    );
}

#[test]
fn diagnostic_render_at_caps() {
    let m = Matrix::<u8, 6, 8>::filled(9);
    let s = m.render_diagnostic();
    assert_eq!(s.lines().count(), 7);
    assert!(!s.contains("truncated"));
    assert!(!s.contains("(+"));
}

#[test]
fn diagnostic_render_rows_only() {
    let m = Matrix::<u8, 7, 2>::filled(1);
    let s = m.render_diagnostic();
    let lines: Vec<&str> = s.lines().collect();
    assert_eq!(lines[0], "Matrix<_, 7, 2> { rows: 7, cols: 2, rows_truncated }");
    assert_eq!(lines.len(), 8);
    assert_eq!(lines[1], "[  1   1]");
    assert_eq!(lines[7], "[  \u{2026}   \u{2026}] (+1 rows)");
}

#[test]
fn diagnostic_render_columns_only() {
    let m = Matrix::<u8, 2, 9>::filled(1);
    let s = m.render_diagnostic();
    let lines: Vec<&str> = s.lines().collect();
    assert_eq!(lines[0], "Matrix<_, 2, 9> { rows: 2, cols: 9, cols_truncated }");
    assert_eq!(lines.len(), 3);
    assert_eq!(lines[1], "[  1   1   1   1   1   1   1   1 \u{2026} (+1 cols)]");
}

#[test]
fn diagnostic_render_without_cells() {
    assert_eq!(
        Matrix::<i32, 0, 3>::new().render_diagnostic(),
        "Matrix<_, 0, 3> { rows: 0, cols: 3 }\n[]\n"
    );
    assert_eq!(
        Matrix::<i32, 3, 0>::new().render_diagnostic(),
        "Matrix<_, 3, 0> { rows: 3, cols: 0 }\n[]\n"
    );
}

#[test]
fn diagnostic_render_without_cells_still_notes_truncation() {
    assert_eq!(
        Matrix::<i32, 0, 10>::new().render_diagnostic(),
        "Matrix<_, 0, 10> { rows: 0, cols: 10, cols_truncated }\n[]\n"
    );
    assert_eq!(
        Matrix::<i32, 10, 0>::new().render_diagnostic(),
        "Matrix<_, 10, 0> { rows: 10, cols: 0, rows_truncated }\n[]\n"
    );
}

#[test]
fn diagnostic_width_ignores_cells_outside_the_window() {
    let mut m = Matrix::<u32, 7, 9>::new();
    m.set(6, 8, 1234567);
    let s = m.render_diagnostic();
    let lines: Vec<&str> = s.lines().collect();
    assert_eq!(lines[1], "[  0   0   0   0   0   0   0   0 \u{2026} (+1 cols)]");
}

#[test]
fn diagnostic_width_follows_the_widest_shown_cell() {
    let mut m = Matrix::<u32, 2, 2>::new();
    m.set(0, 1, 12345);
    assert_eq!(
        m.render_diagnostic(),
        "Matrix<_, 2, 2> { rows: 2, cols: 2 }\n[    0 12345]\n[    0     0]\n"
    );
}

#[test]
fn rendering_twice_gives_the_same_text() {
    let m = random_i64::<10, 10>(7);
    assert_eq!(m.render_full(), m.render_full());
    assert_eq!(m.render_diagnostic(), m.render_diagnostic());
    let copy = m;
    assert_eq!(m.render_full(), copy.render_full());
}

#[test]
fn longer_cell_never_narrows_the_lines() {
    let mut m = Matrix::<i64, 3, 3>::filled(10);
    let before = m.render_full();
    m.set(1, 1, 1000);
    let after = m.render_full();
    let before_lines: Vec<&str> = before.lines().collect();
    let after_lines: Vec<&str> = after.lines().collect();
    assert_eq!(before_lines[1].len(), 2 * 3 + 2 + 2);
    assert_eq!(after_lines[1].len(), 4 * 3 + 2 + 2);
    for line in &after_lines[1..] {
        assert_eq!(line.len(), after_lines[1].len());
    }
}

#[test]
fn words_are_padded_by_characters_to_the_width_in_bytes() {
    let mut m = Matrix::<&'static str, 2, 2>::filled("a");
    m.set(0, 1, "\u{e9}t\u{e9}");
    m.set(1, 0, "abcd");
    assert_eq!(m.render_full(), expected_full(&m));
    assert_eq!(
        m.render_full(),
        "2x2 Matrix:\n[    a   \u{e9}t\u{e9}]\n[ abcd     a]\n"
    );
    assert_eq!(m.render_diagnostic(), expected_diagnostic(&m));
}

#[test]
fn empty_words_leave_blank_fields() {
    let mut m = Matrix::<&'static str, 1, 3>::new();
    m.set(0, 1, "xy");
    assert_eq!(m.render_full(), "1x3 Matrix:\n[   xy   ]\n");
    let n = Matrix::<&'static str, 1, 2>::new();
    assert_eq!(n.render_full(), "1x2 Matrix:\n[ ]\n");
}

#[test]
fn unsigned_text_matches_standard_notation() {
    for n in [0u64, 1, 9, 10, 11, 99, 100, 101, 12345, 1 << 32, u64::MAX - 1, u64::MAX] {
        assert_eq!(unsigned_text(n), n.to_string());
    }
    assert_eq!(unsigned_text(0), "0");
    assert_eq!(unsigned_text(18446744073709551615), "18446744073709551615");
}

#[test]
fn signed_text_matches_standard_notation() {
    for n in [0i64, 1, -1, 9, -9, 10, -10, 12345, -12345, i64::MAX, i64::MIN, i64::MIN + 1] {
        assert_eq!(signed_text(n), n.to_string());
    }
    assert_eq!(signed_text(-9223372036854775808), "-9223372036854775808");
}

#[test]
fn every_integer_type_shows_as_decimal() {
    assert_eq!(200u8.show(), "200");
    assert_eq!(65535u16.show(), "65535");
    assert_eq!(4000000000u32.show(), "4000000000");
    assert_eq!(u64::MAX.show(), u64::MAX.to_string());
    assert_eq!(usize::MAX.show(), usize::MAX.to_string());
    assert_eq!((-128i8).show(), "-128");
    assert_eq!((-32768i16).show(), "-32768");
    assert_eq!(i32::MIN.show(), "-2147483648");
    assert_eq!(i64::MIN.show(), i64::MIN.to_string());
    assert_eq!(isize::MIN.show(), isize::MIN.to_string());
}

#[test]
fn owned_strings_render_from_given_rows() {
    let m = Matrix::<String, 2, 2>::from_rows([
        [String::from("north"), String::from("s")],
        [String::from("e"), String::from("west")],
    ]);
    assert_eq!(m.get(0, 0), "north");
    assert_eq!(m.render_full(), "2x2 Matrix:\n[north     s]\n[    e  west]\n");
}

#[test]
fn marker_wider_than_one_character_cells() {
    let m = Matrix::<&'static str, 7, 1>::filled("\u{20ac}");
    let s = m.render_diagnostic();
    let lines: Vec<&str> = s.lines().collect();
    assert_eq!(lines[1], "[  \u{20ac}]");
    assert_eq!(lines[7], "[  \u{2026}] (+1 rows)");
}
