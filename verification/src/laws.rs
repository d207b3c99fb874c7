//! What holds between the operations: proved once, for every matrix.
use crate::matrix::Matrix;
use crate::construct::one;
use crate::construct::zero;
use crate::semiring::lemma_add_comm;
use crate::semiring::lemma_add_zero;
use crate::semiring::lemma_mul_assoc;
use crate::semiring::lemma_mul_distributes_left;
use crate::semiring::lemma_mul_distributes_right;
use crate::semiring::lemma_mul_one;
use crate::semiring::lemma_mul_zero;
use crate::semiring::lemma_sum_exchange;
use crate::semiring::semiring;
use crate::semiring::sum_first;
use crate::semiring::unital;
use crate::semiring::sum_first_inside;
use crate::semiring::sum_second;
use crate::semiring::sum_second_inside;
use std::ops::Add;
use std::ops::Mul;
use vstd::prelude::*;
use vstd::std_specs::ops::AddSpec;
use vstd::std_specs::ops::MulSpec;

verus! {

broadcast use crate::matrix::Matrix::lemma_from_fn;

impl<T: Copy, const ROWS: usize, const COLS: usize> Matrix<T, ROWS, COLS> {
    /// A matrix filled with one element has `ROWS * COLS` elements, each of
    /// them that element.
    pub proof fn lemma_filled_view(elem: T)
        ensures
            Self::filled_spec(elem)@ == Seq::new((ROWS * COLS) as nat, |i: int| elem),
    {
        let m = Self::filled_spec(elem);
        assert forall|i: int| 0 <= i < ROWS * COLS implies m@[i] == elem by {
            Self::lemma_place(i);
        }
        assert(m@ =~= Seq::new((ROWS * COLS) as nat, |i: int| elem));
    }

    /// After a write to `row` and `col`, a read there gives the value
    /// written, and a read anywhere else gives what it gave before.
    pub proof fn lemma_write_then_read(self, row: int, col: int, value: T, r: int, c: int)
        requires
            Self::in_bounds(row, col),
            Self::in_bounds(r, c),
        ensures
            self.with(row, col, value).at(r, c) == (if r == row && c == col {
                value
            } else {
                self.at(r, c)
            }),
    {
    }

    /// The element in `row` of the column vector for column `col` is the
    /// element in `row` and `col` of the matrix.
    pub proof fn lemma_column_at(self, row: int, col: int)
        requires
            Self::in_bounds(row, col),
        ensures
            self.column(col).at(row, 0) == self.at(row, col),
    {
    }

    /// Taking a matrix apart into its columns and building a matrix from
    /// them gives the matrix back.
    pub proof fn lemma_from_cols_of_cols(self, columns: [[T; ROWS]; COLS])
        requires
            forall|col: int|
                0 <= col < COLS ==> #[trigger] columns@[col] == self.column(col).elems@[0],
        ensures
            Self::from_cols_spec(columns) == self,
    {
        let built = Self::from_cols_spec(columns);
        assert forall|row: int, col: int| Self::in_bounds(row, col) implies #[trigger] built.at(
            row,
            col,
        ) == self.at(row, col) by {
            assert(columns@[col] == self.column(col).elems@[0]);
            self.lemma_column_at(row, col);
        }
        Self::lemma_ext(built, self);
    }
}

impl<T, const ROWS: usize, const COLS: usize> Matrix<T, ROWS, COLS> where
    T: Copy + Add<Output = T> + Mul<Output = T>,
{
    /// Where multiplying by `k` distributes over the sum of each two
    /// elements in one place, scaling by `k` distributes over the sum of the
    /// two matrices.
    pub proof fn lemma_scaled_sum(self, rhs: Self, k: T)
        requires
            forall|row: int, col: int|
                Self::in_bounds(row, col) ==> (#[trigger] self.at(row, col).add_spec(
                    rhs.at(row, col),
                )).mul_spec(k) == self.at(row, col).mul_spec(k).add_spec(
                    rhs.at(row, col).mul_spec(k),
                ),
        ensures
            self.sum(rhs).scaled(k) == self.scaled(k).sum(rhs.scaled(k)),
    {
        Self::lemma_ext(self.sum(rhs).scaled(k), self.scaled(k).sum(rhs.scaled(k)));
    }
}

impl<T, const M: usize, const N: usize> Matrix<T, M, N> where
    T: Copy + Add<Output = T> + Mul<Output = T> + From<u8>,
{
    /// The three-fold products that both ways of bracketing a product of
    /// three matrices add up, for one element of the result.
    spec fn is_triple<const P: usize, const Q: usize>(
        self,
        b: Matrix<T, N, P>,
        c: Matrix<T, P, Q>,
        row: int,
        col: int,
        h: spec_fn(int, int) -> T,
    ) -> bool {
        forall|k: int, l: int| #[trigger]
            h(k, l) == self.at(row, k).mul_spec(b.at(k, l)).mul_spec(c.at(l, col))
    }

    proof fn lemma_dot_times<const P: usize, const Q: usize>(
        self,
        b: Matrix<T, N, P>,
        c: Matrix<T, P, Q>,
        row: int,
        col: int,
        h: spec_fn(int, int) -> T,
        l: int,
        n: nat,
    )
        requires
            semiring::<T>(),
            self.is_triple(b, c, row, col, h),
        ensures
            self.dot(b, row, l, n).mul_spec(c.at(l, col)) == sum_first(h, l, n),
        decreases n,
    {
        if n == 0 {
            lemma_mul_zero(c.at(l, col));
        } else {
            self.lemma_dot_times(b, c, row, col, h, l, (n - 1) as nat);
            lemma_mul_distributes_right(
                self.dot(b, row, l, (n - 1) as nat),
                self.at(row, n - 1).mul_spec(b.at(n - 1, l)),
                c.at(l, col),
            );
            assert(h(n - 1, l) == self.at(row, n - 1).mul_spec(b.at(n - 1, l)).mul_spec(
                c.at(l, col),
            ));
        }
    }

    proof fn lemma_times_dot<const P: usize, const Q: usize>(
        self,
        b: Matrix<T, N, P>,
        c: Matrix<T, P, Q>,
        row: int,
        col: int,
        h: spec_fn(int, int) -> T,
        k: int,
        p: nat,
    )
        requires
            semiring::<T>(),
            self.is_triple(b, c, row, col, h),
        ensures
            self.at(row, k).mul_spec(b.dot(c, k, col, p)) == sum_second(h, k, p),
        decreases p,
    {
        if p == 0 {
            lemma_mul_zero(self.at(row, k));
        } else {
            self.lemma_times_dot(b, c, row, col, h, k, (p - 1) as nat);
            lemma_mul_distributes_left(
                self.at(row, k),
                b.dot(c, k, col, (p - 1) as nat),
                b.at(k, p - 1).mul_spec(c.at(p - 1, col)),
            );
            lemma_mul_assoc(self.at(row, k), b.at(k, p - 1), c.at(p - 1, col));
            assert(h(k, p - 1) == self.at(row, k).mul_spec(b.at(k, p - 1)).mul_spec(
                c.at(p - 1, col),
            ));
        }
    }

    proof fn lemma_left_bracketed<const P: usize, const Q: usize>(
        self,
        b: Matrix<T, N, P>,
        c: Matrix<T, P, Q>,
        row: int,
        col: int,
        h: spec_fn(int, int) -> T,
        p: nat,
    )
        requires
            semiring::<T>(),
            self.is_triple(b, c, row, col, h),
            0 <= row < M,
            p <= P,
        ensures
            self.product(b).dot(c, row, col, p) == sum_first_inside(h, N as nat, p),
        decreases p,
    {
        if p > 0 {
            self.lemma_left_bracketed(b, c, row, col, h, (p - 1) as nat);
            self.lemma_dot_times(b, c, row, col, h, p - 1, N as nat);
            assert(self.product(b).at(row, p - 1) == self.dot(b, row, p - 1, N as nat));
        }
    }

    proof fn lemma_right_bracketed<const P: usize, const Q: usize>(
        self,
        b: Matrix<T, N, P>,
        c: Matrix<T, P, Q>,
        row: int,
        col: int,
        h: spec_fn(int, int) -> T,
        n: nat,
    )
        requires
            semiring::<T>(),
            self.is_triple(b, c, row, col, h),
            0 <= col < Q,
            n <= N,
        ensures
            self.dot(b.product(c), row, col, n) == sum_second_inside(h, n, P as nat),
        decreases n,
    {
        if n > 0 {
            self.lemma_right_bracketed(b, c, row, col, h, (n - 1) as nat);
            self.lemma_times_dot(b, c, row, col, h, n - 1, P as nat);
            assert(b.product(c).at(n - 1, col) == b.dot(c, n - 1, col, P as nat));
        }
    }

    proof fn lemma_identity_dot_left(self, row: int, col: int, n: nat)
        requires
            semiring::<T>(),
            unital::<T>(),
            0 <= row < M,
            n <= M,
        ensures
            Matrix::<T, M, M>::diagonal(zero::<T>(), one::<T>()).dot(self, row, col, n) == (if row
                < n {
                self.at(row, col)
            } else {
                zero::<T>()
            }),
        decreases n,
    {
        if n > 0 {
            self.lemma_identity_dot_left(row, col, (n - 1) as nat);
            lemma_mul_one(self.at(n - 1, col));
            lemma_mul_zero(self.at(n - 1, col));
            lemma_add_zero(self.at(row, col));
            lemma_add_zero(zero::<T>());
            lemma_add_comm(self.at(row, col), zero::<T>());
        }
    }

    proof fn lemma_identity_dot_right(self, row: int, col: int, n: nat)
        requires
            semiring::<T>(),
            unital::<T>(),
            0 <= col < N,
            n <= N,
        ensures
            self.dot(Matrix::<T, N, N>::diagonal(zero::<T>(), one::<T>()), row, col, n) == (if col
                < n {
                self.at(row, col)
            } else {
                zero::<T>()
            }),
        decreases n,
    {
        if n > 0 {
            self.lemma_identity_dot_right(row, col, (n - 1) as nat);
            lemma_mul_one(self.at(row, n - 1));
            lemma_mul_zero(self.at(row, n - 1));
            lemma_add_zero(self.at(row, col));
            lemma_add_zero(zero::<T>());
            lemma_add_comm(self.at(row, col), zero::<T>());
        }
    }

    /// The identity matrix is neutral for the product, from both sides,
    /// where the arithmetic of the elements obeys the laws of a semiring
    /// with a one.
    pub proof fn lemma_identity_neutral(self)
        requires
            semiring::<T>(),
            unital::<T>(),
        ensures
            Matrix::<T, M, M>::diagonal(zero::<T>(), one::<T>()).product(self) == self,
            self.product(Matrix::<T, N, N>::diagonal(zero::<T>(), one::<T>())) == self,
    {
        let left = Matrix::<T, M, M>::diagonal(zero::<T>(), one::<T>()).product(self);
        let right = self.product(Matrix::<T, N, N>::diagonal(zero::<T>(), one::<T>()));
        assert forall|row: int, col: int| Self::in_bounds(row, col) implies #[trigger] left.at(
            row,
            col,
        ) == self.at(row, col) by {
            self.lemma_identity_dot_left(row, col, M as nat);
        }
        assert forall|row: int, col: int| Self::in_bounds(row, col) implies #[trigger] right.at(
            row,
            col,
        ) == self.at(row, col) by {
            self.lemma_identity_dot_right(row, col, N as nat);
        }
        Self::lemma_ext(left, self);
        Self::lemma_ext(right, self);
    }

    /// The product of three matrices does not depend on which two are
    /// multiplied first, where the arithmetic of the elements obeys the laws
    /// of a semiring. The shapes fit either way.
    pub proof fn lemma_product_assoc<const P: usize, const Q: usize>(
        self,
        b: Matrix<T, N, P>,
        c: Matrix<T, P, Q>,
    )
        requires
            semiring::<T>(),
        ensures
            self.product(b).product(c) == self.product(b.product(c)),
    {
        let left = self.product(b).product(c);
        let right = self.product(b.product(c));
        assert forall|row: int, col: int|
            Matrix::<T, M, Q>::in_bounds(row, col) implies #[trigger] left.at(row, col)
            == right.at(row, col) by {
            let h = |k: int, l: int|
                self.at(row, k).mul_spec(b.at(k, l)).mul_spec(c.at(l, col));
            self.lemma_left_bracketed(b, c, row, col, h, P as nat);
            self.lemma_right_bracketed(b, c, row, col, h, N as nat);
            lemma_sum_exchange(h, N as nat, P as nat);
        }
        Matrix::<T, M, Q>::lemma_ext(left, right);
    }
}

} // verus!
