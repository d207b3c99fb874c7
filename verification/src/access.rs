//! Reading and writing single elements, and reading all of them in
//! column-major order.
use crate::matrix::Matrix;
use std::ops::Index;
use vstd::prelude::*;

verus! {

impl<T: Copy, const ROWS: usize, const COLS: usize> Matrix<T, ROWS, COLS> {
    /// The position of the element in `row` and `col` within the
    /// column-major sequence of all elements. There is none outside the
    /// matrix, and none that `usize` cannot hold.
    pub fn index(row: usize, col: usize) -> (r: Option<usize>)
        ensures
            r == (if Self::in_bounds(row as int, col as int) && Self::position(
                row as int,
                col as int,
            ) <= usize::MAX {
                Some(Self::position(row as int, col as int) as usize)
            } else {
                None
            }),
    {
        if row < ROWS && col < COLS {
            match col.checked_mul(ROWS) {
                Some(before) => before.checked_add(row),
                None => {
                    proof {
                        assert(col * ROWS + row >= col * ROWS);
                    }
                    None
                },
            }
        } else {
            None
        }
    }

    /// The element in `row` and `col`, if the matrix has one there.
    pub fn get(&self, row: usize, col: usize) -> (r: Option<&T>)
        ensures
            r == (if Self::in_bounds(row as int, col as int) {
                Some(&self.at(row as int, col as int))
            } else {
                None
            }),
    {
        if row < ROWS && col < COLS {
            Some(&self.elems[col][row])
        } else {
            None
        }
    }

    /// The element in `row` and `col` of a matrix that has one there.
    pub fn get_unsafe(&self, row: usize, col: usize) -> (r: &T)
        requires
            Self::in_bounds(row as int, col as int),
        ensures
            *r == self.at(row as int, col as int),
    {
        &self.elems[col][row]
    }

    /// A reference through which the element in `row` and `col` can be
    /// written, if the matrix has one there. What is written through it is
    /// the only change to the matrix.
    pub fn get_mut(&mut self, row: usize, col: usize) -> (r: Option<&mut T>)
        ensures
            r is Some <==> Self::in_bounds(row as int, col as int),
            r matches Some(elem) ==> *elem == old(self).at(row as int, col as int) && *final(self)
                == old(self).with(row as int, col as int, *final(elem)),
            r is None ==> *final(self) == *old(self),
    {
        if row < ROWS && col < COLS {
            let ghost before = *self;
            let ghost after = *final(self);
            let elem = &mut self.elems[col][row];
            proof {
                broadcast use Matrix::lemma_from_fn;

                Self::lemma_ext(after, before.with(row as int, col as int, *final(elem)));
            }
            Some(elem)
        } else {
            None
        }
    }

    /// A reference through which the element in `row` and `col` can be
    /// written. What is written through it is the only change to the matrix.
    pub fn get_mut_unsafe(&mut self, row: usize, col: usize) -> (r: &mut T)
        requires
            Self::in_bounds(row as int, col as int),
        ensures
            *r == old(self).at(row as int, col as int),
            *final(self) == old(self).with(row as int, col as int, *final(r)),
    {
        let ghost before = *self;
        let ghost after = *final(self);
        let elem = &mut self.elems[col][row];
        proof {
            broadcast use Matrix::lemma_from_fn;

            Self::lemma_ext(after, before.with(row as int, col as int, *final(elem)));
        }
        elem
    }

    /// Writes `value` to the element in `row` and `col`, and to no other.
    pub fn set(&mut self, row: usize, col: usize, value: T)
        requires
            Self::in_bounds(row as int, col as int),
        ensures
            *final(self) == old(self).with(row as int, col as int, value),
    {
        self.elems[col][row] = value;
        proof {
            broadcast use Matrix::lemma_from_fn;

            Self::lemma_ext(*self, old(self).with(row as int, col as int, value));
        }
    }

    /// The columns as column vectors, in their order.
    pub fn cols(&self) -> (r: [Matrix<T, ROWS, 1>; COLS])
        ensures
            forall|col: int| 0 <= col < COLS ==> #[trigger] r@[col] == self.column(col),
    {
        let mut columns: Vec<Matrix<T, ROWS, 1>> = Vec::new();
        for col in 0..COLS
            invariant
                columns@.len() == col,
                forall|c: int| 0 <= c < col ==> #[trigger] columns@[c] == self.column(c),
        {
            let column = Matrix { elems: [self.elems[col]] };
            proof {
                broadcast use Matrix::lemma_from_fn;

                Matrix::<T, ROWS, 1>::lemma_ext(column, self.column(col as int));
            }
            columns.push(column);
        }
        crate::construct::array_of::<Matrix<T, ROWS, 1>, COLS>(columns.as_slice()).unwrap()
    }

    /// All elements in column-major order.
    pub fn to_vec(&self) -> (r: Vec<T>)
        ensures
            r@ == self@,
            r@.len() == ROWS * COLS,
    {
        let mut out: Vec<T> = Vec::new();
        for col in 0..COLS
            invariant
                out@.len() == col * ROWS,
                forall|c: int, r: int|
                    0 <= c < col && 0 <= r < ROWS ==> out@[Self::position(r, c)]
                        == #[trigger] self.at(r, c),
        {
            for row in 0..ROWS
                invariant
                    col < COLS,
                    out@.len() == col * ROWS + row,
                    forall|c: int, r: int|
                        0 <= c < col && 0 <= r < ROWS ==> out@[Self::position(r, c)]
                            == #[trigger] self.at(r, c),
                    forall|r: int|
                        0 <= r < row ==> out@[Self::position(r, col as int)] == #[trigger] self.at(
                            r,
                            col as int,
                        ),
            {
                proof {
                    assert forall|c: int, r: int| 0 <= c < col && 0 <= r < ROWS implies 0
                        <= #[trigger] Self::position(r, c) < col * ROWS by {
                        assert(0 <= c * ROWS && c * ROWS + ROWS <= col * ROWS) by (nonlinear_arith)
                            requires
                                0 <= c < col,
                                0 <= ROWS,
                        ;
                    }
                }
                out.push(self.elems[col][row]);
            }
            proof {
                assert((col + 1) * ROWS == col * ROWS + ROWS) by (nonlinear_arith);
            }
        }
        proof {
            assert(COLS * ROWS == ROWS * COLS) by (nonlinear_arith);
            assert forall|i: int| 0 <= i < ROWS * COLS implies out@[i] == self@[i] by {
                Self::lemma_place(i);
                assert(out@[Self::position(i % (ROWS as int), i / (ROWS as int))] == self.at(
                    i % (ROWS as int),
                    i / (ROWS as int),
                ));
            }
            assert(out@ =~= self@);
        }
        out
    }
}

impl<T: Copy, const ROWS: usize, const COLS: usize> vstd::std_specs::core::IndexSpecImpl<(usize, usize)> for Matrix<T, ROWS, COLS> {
    /// Indexing wants a row and a column within the matrix.
    open spec fn index_req(&self, index: &(usize, usize)) -> bool {
        index.0 < ROWS && index.1 < COLS
    }
}

impl<T: Copy, const ROWS: usize, const COLS: usize> Index<(usize, usize)> for Matrix<T, ROWS, COLS> {
    type Output = T;

    /// `matrix[(row, col)]` is the element in `row` and `col`.
    fn index(&self, index: (usize, usize)) -> (r: &T)
        ensures
            *r == self.at(index.0 as int, index.1 as int),
    {
        &self.elems[index.1][index.0]
    }
}

} // verus!
