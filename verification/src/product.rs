//! The product of two matrices. The left operand has as many columns as the
//! right one has rows; the type of the operator says so.
use crate::construct::zero;
use crate::matrix::Matrix;
use std::ops::Add;
use std::ops::Mul;
use vstd::prelude::*;
use vstd::std_specs::convert::FromSpec;
use vstd::std_specs::ops::AddSpec;
use vstd::std_specs::ops::MulSpec;

verus! {

broadcast use crate::matrix::Matrix::lemma_from_fn;

/// Whether the element type says what its zero, its sums and its products
/// are.
pub open spec fn specified<T: Add<Output = T> + Mul<Output = T> + From<u8>>() -> bool {
    T::obeys_from_spec() && T::obeys_add_spec() && T::obeys_mul_spec()
}

/// Whether any two elements can be added and multiplied.
pub open spec fn total<T: Add<Output = T> + Mul<Output = T>>() -> bool {
    forall|a: T, b: T|
        #![trigger a.add_req(b)]
        #![trigger a.mul_req(b)]
        a.add_req(b) && a.mul_req(b)
}

impl<T, const M: usize, const N: usize> Matrix<T, M, N> where
    T: Copy + Add<Output = T> + Mul<Output = T> + From<u8>,
{
    /// The sum of the first `n` products of an element of row `row` of
    /// `self` and the element of column `col` of `rhs` that it meets. The
    /// sum starts from zero and takes the products in their order.
    pub open spec fn dot<const P: usize>(
        self,
        rhs: Matrix<T, N, P>,
        row: int,
        col: int,
        n: nat,
    ) -> T
        decreases n,
    {
        if n == 0 {
            zero::<T>()
        } else {
            self.dot(rhs, row, col, (n - 1) as nat).add_spec(
                self.at(row, n - 1).mul_spec(rhs.at(n - 1, col)),
            )
        }
    }

    /// Whether `value` is what the operators of the element type may give for
    /// the sum that `dot` describes: the zero that `T::from` gives, then
    /// each product added in its order.
    pub open spec fn dot_result<const P: usize>(
        self,
        rhs: Matrix<T, N, P>,
        row: int,
        col: int,
        n: nat,
        value: T,
    ) -> bool
        decreases n,
    {
        if n == 0 {
            call_ensures(T::from, (0u8,), value)
        } else {
            exists|sum: T, term: T|
                {
                    &&& self.dot_result(rhs, row, col, (n - 1) as nat, sum)
                    &&& call_ensures(T::mul, (self.at(row, n - 1), rhs.at(n - 1, col)), term)
                    &&& #[trigger] call_ensures(T::add, (sum, term), value)
                }
        }
    }

    /// The product of `self` and `rhs`: the element in `row` and `col` is
    /// row `row` of `self` times column `col` of `rhs`.
    pub open spec fn product<const P: usize>(self, rhs: Matrix<T, N, P>) -> Matrix<T, M, P> {
        Matrix::<T, M, P>::from_fn(|row: int, col: int| self.dot(rhs, row, col, N as nat))
    }

    /// Whether each product and each sum that `product` takes can be taken.
    pub open spec fn product_steps<const P: usize>(self, rhs: Matrix<T, N, P>) -> bool {
        forall|row: int, col: int, k: int|
            0 <= row < M && 0 <= col < P && 0 <= k < N ==> {
                &&& #[trigger] self.at(row, k).mul_req(rhs.at(k, col))
                &&& self.dot(rhs, row, col, k as nat).add_req(
                    self.at(row, k).mul_spec(rhs.at(k, col)),
                )
            }
    }

    /// What the product asks of its operands: that the arithmetic of the
    /// elements is specified and each step can be taken, or that every step
    /// can be taken whatever the elements are.
    pub open spec fn product_req<const P: usize>(self, rhs: Matrix<T, N, P>) -> bool {
        (specified::<T>() && self.product_steps(rhs)) || total::<T>()
    }
}

impl<T: Copy + Add<Output = T> + Mul<Output = T> + From<u8>, const M: usize, const N: usize, const P: usize> vstd::std_specs::ops::MulSpecImpl<Matrix<T, N, P>> for Matrix<T, M, N> {
    open spec fn obeys_mul_spec() -> bool {
        specified::<T>()
    }

    open spec fn mul_req(self, rhs: Matrix<T, N, P>) -> bool {
        self.product_req(rhs)
    }

    open spec fn mul_spec(self, rhs: Matrix<T, N, P>) -> Matrix<T, M, P> {
        self.product(rhs)
    }
}

impl<T: Copy + Add<Output = T> + Mul<Output = T> + From<u8>, const M: usize, const N: usize, const P: usize> Mul<Matrix<T, N, P>> for Matrix<T, M, N> {
    type Output = Matrix<T, M, P>;

    /// `a * b` is the matrix product.
    fn mul(self, rhs: Matrix<T, N, P>) -> (r: Matrix<T, M, P>)
        ensures
            forall|row: int, col: int|
                0 <= row < M && 0 <= col < P ==> self.dot_result(
                    rhs,
                    row,
                    col,
                    N as nat,
                    #[trigger] r.at(row, col),
                ),
    {
        let z = T::from(0u8);
        let mut out = Matrix::<T, M, P>::filled(z);
        for col in 0..P
            invariant
                self.product_req(rhs),
                call_ensures(T::from, (0u8,), z),
                specified::<T>() ==> z == zero::<T>(),
                forall|r: int, c: int|
                    0 <= r < M && 0 <= c < col ==> self.dot_result(
                        rhs,
                        r,
                        c,
                        N as nat,
                        #[trigger] out.at(r, c),
                    ),
                specified::<T>() ==> forall|r: int, c: int|
                    0 <= r < M && 0 <= c < col ==> #[trigger] out.at(r, c) == self.dot(
                        rhs,
                        r,
                        c,
                        N as nat,
                    ),
        {
            for row in 0..M
                invariant
                    col < P,
                    self.product_req(rhs),
                    call_ensures(T::from, (0u8,), z),
                    specified::<T>() ==> z == zero::<T>(),
                    forall|r: int, c: int|
                        0 <= r < M && 0 <= c < col ==> self.dot_result(
                            rhs,
                            r,
                            c,
                            N as nat,
                            #[trigger] out.at(r, c),
                        ),
                    forall|r: int|
                        0 <= r < row ==> self.dot_result(
                            rhs,
                            r,
                            col as int,
                            N as nat,
                            #[trigger] out.at(r, col as int),
                        ),
                    specified::<T>() ==> forall|r: int, c: int|
                        0 <= r < M && 0 <= c < col ==> #[trigger] out.at(r, c) == self.dot(
                            rhs,
                            r,
                            c,
                            N as nat,
                        ),
                    specified::<T>() ==> forall|r: int|
                        0 <= r < row ==> #[trigger] out.at(r, col as int) == self.dot(
                            rhs,
                            r,
                            col as int,
                            N as nat,
                        ),
            {
                let mut sum = z;
                for k in 0..N
                    invariant
                        col < P,
                        row < M,
                        self.product_req(rhs),
                        self.dot_result(rhs, row as int, col as int, k as nat, sum),
                        specified::<T>() ==> sum == self.dot(rhs, row as int, col as int, k as nat),
                {
                    assert(self.at(row as int, k as int).mul_req(rhs.at(k as int, col as int)));
                    let term = self.elems[k][row] * rhs.elems[col][k];
                    let next = sum + term;
                    assert(call_ensures(T::add, (sum, term), next));
                    sum = next;
                }
                out.set(row, col, sum);
            }
        }
        proof {
            if specified::<T>() {
                Matrix::<T, M, P>::lemma_ext(out, self.product(rhs));
            }
        }
        out
    }
}

} // verus!
