//! The container: `R` rows of `C` cells each, fixed at construction.

use vstd::prelude::*;

verus! {

/// A grid of `R` rows and `C` columns that owns its cells.
#[derive(Clone, Copy, PartialEq)]
pub struct Matrix<T, const R: usize, const C: usize> {
    data: [[T; C]; R],
}

impl<T, const R: usize, const C: usize> View for Matrix<T, R, C> {
    type V = Seq<Seq<T>>;

    /// The cells, row by row.
    closed spec fn view(&self) -> Seq<Seq<T>> {
        Seq::new(R as nat, |i: int| self.data@[i]@)
    }
}

impl<T, const R: usize, const C: usize> Matrix<T, R, C> {
    /// The shape never changes: `R` rows, each of `C` cells.
    pub proof fn lemma_shape(&self)
        ensures
            self@.len() == R,
            forall|i: int| 0 <= i < R ==> (#[trigger] self@[i]).len() == C,
    {
        broadcast use vstd::array::array_len_matches_n;
    }

    /// The matrix that holds the given rows.
    pub fn from_rows(rows: [[T; C]; R]) -> (m: Self)
        ensures
            m@ == Seq::new(R as nat, |i: int| rows@[i]@),
    {
        Matrix { data: rows }
    }

    /// A matrix with `value` in every cell.
    pub fn filled(value: T) -> (m: Self)
        where T: Copy
        ensures
            m@ == Seq::new(R as nat, |i: int| Seq::new(C as nat, |j: int| value)),
    {
        let row: [T; C] = [value; C];
        let m = Matrix { data: [row; R] };
        proof {
            broadcast use vstd::array::array_len_matches_n;
            assert forall|i: int| 0 <= i < R implies #[trigger] m.data@[i]@ == Seq::new(
                C as nat,
                |j: int| value,
            ) by {
                assert(m.data@[i]@ =~= Seq::new(C as nat, |j: int| value));
            }
            assert(m@ =~= Seq::new(R as nat, |i: int| Seq::new(C as nat, |j: int| value)));
        }
        m
    }

    /// The cell at row `i`, column `j`.
    #[inline]
    pub fn get(&self, i: usize, j: usize) -> (cell: &T)
        requires
            i < R,
            j < C,
        ensures
            *cell == self@[i as int][j as int],
    {
        &self.data[i][j]
    }

    /// Overwrites the cell at row `i`, column `j`; every other cell stays.
    pub fn set(&mut self, i: usize, j: usize, value: T)
        requires
            i < R,
            j < C,
        ensures
            final(self)@ == old(self)@.update(i as int, old(self)@[i as int].update(j as int, value)),
    {
        self.data[i][j] = value;
    }
}

impl<T: Default + Copy, const R: usize, const C: usize> Matrix<T, R, C> {
    /// A matrix with the element type's default value in every cell.
    pub fn new() -> (m: Self)
        ensures
            m@.len() == R,
            forall|i: int| 0 <= i < R ==> (#[trigger] m@[i]).len() == C,
            forall|i: int, j: int|
                0 <= i < R && 0 <= j < C ==> call_ensures(T::default, (), #[trigger] m@[i][j]),
            forall|i: int, j: int, k: int, l: int|
                0 <= i < R && 0 <= j < C && 0 <= k < R && 0 <= l < C ==> m@[i][j] == m@[k][l],
    {
        let d = T::default();
        Self::filled(d)
    }
}

} // verus!
