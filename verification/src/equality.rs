//! Equality of matrices: element by element, as the element type compares.
use crate::matrix::Matrix;
use vstd::prelude::*;
use vstd::std_specs::cmp::PartialEqSpec;

verus! {

impl<T: Copy + PartialEq, const ROWS: usize, const COLS: usize> Matrix<T, ROWS, COLS> {
    /// Whether each element of `self` equals the element of `other` in the
    /// same place.
    pub open spec fn same_elems(self, other: Self) -> bool {
        forall|row: int, col: int|
            Self::in_bounds(row, col) ==> #[trigger] self.at(row, col).eq_spec(&other.at(row, col))
    }
}

impl<T: Copy + PartialEq, const ROWS: usize, const COLS: usize> vstd::std_specs::cmp::PartialEqSpecImpl for Matrix<T, ROWS, COLS> {
    open spec fn obeys_eq_spec() -> bool {
        T::obeys_eq_spec()
    }

    open spec fn eq_spec(&self, other: &Self) -> bool {
        self.same_elems(*other)
    }
}

impl<T: Copy + PartialEq, const ROWS: usize, const COLS: usize> PartialEq for Matrix<T, ROWS, COLS> {
    /// Two matrices are equal where all their elements are.
    fn eq(&self, other: &Self) -> (r: bool)
        ensures
            r ==> forall|row: int, col: int|
                Self::in_bounds(row, col) ==> call_ensures(
                    T::eq,
                    (&#[trigger] self.at(row, col), &other.at(row, col)),
                    true,
                ),
            !r ==> exists|row: int, col: int|
                Self::in_bounds(row, col) && call_ensures(
                    T::eq,
                    (&#[trigger] self.at(row, col), &other.at(row, col)),
                    false,
                ),
    {
        for col in 0..COLS
            invariant
                forall|row: int, c: int|
                    0 <= row < ROWS && 0 <= c < col ==> call_ensures(
                        T::eq,
                        (&#[trigger] self.at(row, c), &other.at(row, c)),
                        true,
                    ),
                T::obeys_eq_spec() ==> forall|row: int, c: int|
                    0 <= row < ROWS && 0 <= c < col ==> #[trigger] self.at(row, c).eq_spec(
                        &other.at(row, c),
                    ),
        {
            for row in 0..ROWS
                invariant
                    col < COLS,
                    forall|r: int, c: int|
                        0 <= r < ROWS && 0 <= c < col ==> call_ensures(
                            T::eq,
                            (&#[trigger] self.at(r, c), &other.at(r, c)),
                            true,
                        ),
                    forall|r: int|
                        0 <= r < row ==> call_ensures(
                            T::eq,
                            (&#[trigger] self.at(r, col as int), &other.at(r, col as int)),
                            true,
                        ),
                    T::obeys_eq_spec() ==> forall|r: int, c: int|
                        0 <= r < ROWS && 0 <= c < col ==> #[trigger] self.at(r, c).eq_spec(
                            &other.at(r, c),
                        ),
                    T::obeys_eq_spec() ==> forall|r: int|
                        0 <= r < row ==> #[trigger] self.at(r, col as int).eq_spec(
                            &other.at(r, col as int),
                        ),
            {
                let same = self.elems[col][row] == other.elems[col][row];
                if !same {
                    proof {
                        assert(Self::in_bounds(row as int, col as int) && call_ensures(
                            T::eq,
                            (&self.at(row as int, col as int), &other.at(row as int, col as int)),
                            false,
                        ));
                        if T::obeys_eq_spec() {
                            assert(!self.at(row as int, col as int).eq_spec(
                                &other.at(row as int, col as int),
                            ));
                        }
                    }
                    return false;
                }
            }
        }
        true
    }
}

} // verus!
