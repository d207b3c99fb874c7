//! Arithmetic element by element: the sum and the difference of two
//! matrices of one shape, and a matrix times a scalar.
use crate::matrix::Matrix;
use std::ops::Add;
use std::ops::Mul;
use std::ops::Sub;
use vstd::prelude::*;
use vstd::std_specs::ops::AddSpec;
use vstd::std_specs::ops::MulSpec;
use vstd::std_specs::ops::SubSpec;

verus! {

broadcast use crate::matrix::Matrix::lemma_from_fn;

impl<T: Copy + Add<Output = T>, const ROWS: usize, const COLS: usize> Matrix<T, ROWS, COLS> {
    /// Whether each element of `self` can be added to the element of `rhs`
    /// in the same place.
    pub open spec fn sum_req(self, rhs: Self) -> bool {
        forall|row: int, col: int|
            Self::in_bounds(row, col) ==> #[trigger] self.at(row, col).add_req(rhs.at(row, col))
    }

    /// The matrix of the sums of the elements in the same place.
    pub open spec fn sum(self, rhs: Self) -> Self {
        Self::from_fn(|row: int, col: int| self.at(row, col).add_spec(rhs.at(row, col)))
    }
}

impl<T: Copy + Sub<Output = T>, const ROWS: usize, const COLS: usize> Matrix<T, ROWS, COLS> {
    /// Whether from each element of `self` the element of `rhs` in the same
    /// place can be subtracted.
    pub open spec fn difference_req(self, rhs: Self) -> bool {
        forall|row: int, col: int|
            Self::in_bounds(row, col) ==> #[trigger] self.at(row, col).sub_req(rhs.at(row, col))
    }

    /// The matrix of the differences of the elements in the same place.
    pub open spec fn difference(self, rhs: Self) -> Self {
        Self::from_fn(|row: int, col: int| self.at(row, col).sub_spec(rhs.at(row, col)))
    }
}

impl<T: Copy + Mul<Output = T>, const ROWS: usize, const COLS: usize> Matrix<T, ROWS, COLS> {
    /// Whether each element of `self` can be multiplied by `k`.
    pub open spec fn scaled_req(self, k: T) -> bool {
        forall|row: int, col: int|
            Self::in_bounds(row, col) ==> #[trigger] self.at(row, col).mul_req(k)
    }

    /// The matrix of the elements of `self`, each multiplied by `k`.
    pub open spec fn scaled(self, k: T) -> Self {
        Self::from_fn(|row: int, col: int| self.at(row, col).mul_spec(k))
    }
}

impl<T: Copy + Add<Output = T>, const ROWS: usize, const COLS: usize> vstd::std_specs::ops::AddSpecImpl for Matrix<T, ROWS, COLS> {
    open spec fn obeys_add_spec() -> bool {
        T::obeys_add_spec()
    }

    open spec fn add_req(self, rhs: Self) -> bool {
        self.sum_req(rhs)
    }

    open spec fn add_spec(self, rhs: Self) -> Self {
        self.sum(rhs)
    }
}

impl<T: Copy + Add<Output = T>, const ROWS: usize, const COLS: usize> Add for Matrix<T, ROWS, COLS> {
    type Output = Self;

    /// `a + b` adds element by element.
    fn add(self, rhs: Self) -> (r: Self)
        ensures
            forall|row: int, col: int|
                Self::in_bounds(row, col) ==> call_ensures(
                    T::add,
                    (self.at(row, col), rhs.at(row, col)),
                    #[trigger] r.at(row, col),
                ),
    {
        let mut out = self;
        for col in 0..COLS
            invariant
                self.sum_req(rhs),
                forall|r: int, c: int|
                    0 <= r < ROWS && 0 <= c < col ==> call_ensures(
                        T::add,
                        (self.at(r, c), rhs.at(r, c)),
                        #[trigger] out.at(r, c),
                    ),
        {
            for row in 0..ROWS
                invariant
                    col < COLS,
                    self.sum_req(rhs),
                    forall|r: int, c: int|
                        0 <= r < ROWS && 0 <= c < col ==> call_ensures(
                            T::add,
                            (self.at(r, c), rhs.at(r, c)),
                            #[trigger] out.at(r, c),
                        ),
                    forall|r: int|
                        0 <= r < row ==> call_ensures(
                            T::add,
                            (self.at(r, col as int), rhs.at(r, col as int)),
                            #[trigger] out.at(r, col as int),
                        ),
            {
                assert(self.at(row as int, col as int).add_req(rhs.at(row as int, col as int)));
                out.set(row, col, self.elems[col][row] + rhs.elems[col][row]);
            }
        }
        proof {
            if T::obeys_add_spec() {
                Self::lemma_ext(out, self.sum(rhs));
            }
        }
        out
    }
}

impl<T: Copy + Sub<Output = T>, const ROWS: usize, const COLS: usize> vstd::std_specs::ops::SubSpecImpl for Matrix<T, ROWS, COLS> {
    open spec fn obeys_sub_spec() -> bool {
        T::obeys_sub_spec()
    }

    open spec fn sub_req(self, rhs: Self) -> bool {
        self.difference_req(rhs)
    }

    open spec fn sub_spec(self, rhs: Self) -> Self {
        self.difference(rhs)
    }
}

impl<T: Copy + Sub<Output = T>, const ROWS: usize, const COLS: usize> Sub for Matrix<T, ROWS, COLS> {
    type Output = Self;

    /// `a - b` subtracts element by element.
    fn sub(self, rhs: Self) -> (r: Self)
        ensures
            forall|row: int, col: int|
                Self::in_bounds(row, col) ==> call_ensures(
                    T::sub,
                    (self.at(row, col), rhs.at(row, col)),
                    #[trigger] r.at(row, col),
                ),
    {
        let mut out = self;
        for col in 0..COLS
            invariant
                self.difference_req(rhs),
                forall|r: int, c: int|
                    0 <= r < ROWS && 0 <= c < col ==> call_ensures(
                        T::sub,
                        (self.at(r, c), rhs.at(r, c)),
                        #[trigger] out.at(r, c),
                    ),
        {
            for row in 0..ROWS
                invariant
                    col < COLS,
                    self.difference_req(rhs),
                    forall|r: int, c: int|
                        0 <= r < ROWS && 0 <= c < col ==> call_ensures(
                            T::sub,
                            (self.at(r, c), rhs.at(r, c)),
                            #[trigger] out.at(r, c),
                        ),
                    forall|r: int|
                        0 <= r < row ==> call_ensures(
                            T::sub,
                            (self.at(r, col as int), rhs.at(r, col as int)),
                            #[trigger] out.at(r, col as int),
                        ),
            {
                assert(self.at(row as int, col as int).sub_req(rhs.at(row as int, col as int)));
                out.set(row, col, self.elems[col][row] - rhs.elems[col][row]);
            }
        }
        proof {
            if T::obeys_sub_spec() {
                Self::lemma_ext(out, self.difference(rhs));
            }
        }
        out
    }
}

impl<T: Copy + Mul<Output = T>, const ROWS: usize, const COLS: usize> vstd::std_specs::ops::MulSpecImpl<T> for Matrix<T, ROWS, COLS> {
    open spec fn obeys_mul_spec() -> bool {
        T::obeys_mul_spec()
    }

    open spec fn mul_req(self, rhs: T) -> bool {
        self.scaled_req(rhs)
    }

    open spec fn mul_spec(self, rhs: T) -> Self {
        self.scaled(rhs)
    }
}

impl<T: Copy + Mul<Output = T>, const ROWS: usize, const COLS: usize> Mul<T> for Matrix<T, ROWS, COLS> {
    type Output = Self;

    /// `a * k` multiplies each element by the scalar `k`.
    fn mul(self, rhs: T) -> (r: Self)
        ensures
            forall|row: int, col: int|
                Self::in_bounds(row, col) ==> call_ensures(
                    T::mul,
                    (self.at(row, col), rhs),
                    #[trigger] r.at(row, col),
                ),
    {
        let mut out = self;
        for col in 0..COLS
            invariant
                self.scaled_req(rhs),
                forall|r: int, c: int|
                    0 <= r < ROWS && 0 <= c < col ==> call_ensures(
                        T::mul,
                        (self.at(r, c), rhs),
                        #[trigger] out.at(r, c),
                    ),
        {
            for row in 0..ROWS
                invariant
                    col < COLS,
                    self.scaled_req(rhs),
                    forall|r: int, c: int|
                        0 <= r < ROWS && 0 <= c < col ==> call_ensures(
                            T::mul,
                            (self.at(r, c), rhs),
                            #[trigger] out.at(r, c),
                        ),
                    forall|r: int|
                        0 <= r < row ==> call_ensures(
                            T::mul,
                            (self.at(r, col as int), rhs),
                            #[trigger] out.at(r, col as int),
                        ),
            {
                assert(self.at(row as int, col as int).mul_req(rhs));
                out.set(row, col, self.elems[col][row] * rhs);
            }
        }
        proof {
            if T::obeys_mul_spec() {
                Self::lemma_ext(out, self.scaled(rhs));
            }
        }
        out
    }
}

} // verus!
