//! Construction: from a flat sequence of elements, from one repeated
//! element, from a diagonal, and from columns.
use crate::matrix::Matrix;
use vstd::prelude::*;
use vstd::std_specs::convert::FromSpec;

verus! {

/// The element that the number 0 converts to.
pub open spec fn zero<T: From<u8>>() -> T {
    T::from_spec(0u8)
}

/// The element that the number 1 converts to.
pub open spec fn one<T: From<u8>>() -> T {
    T::from_spec(1u8)
}

/// Calls std's `TryFrom<&[T]>` for `[T; N]`, which copies a slice of exactly
/// `N` items into an array and fails on a slice of any other length. The
/// error carries nothing and is dropped.
#[verifier::external_body]
pub(crate) fn array_of<T: Copy, const N: usize>(items: &[T]) -> (r: Option<[T; N]>)
    ensures
        r is Some <==> items@.len() == N,
        r matches Some(a) ==> a@ == items@,
{
    <[T; N]>::try_from(items).ok()
}

impl<T: Copy, const ROWS: usize, const COLS: usize> Matrix<T, ROWS, COLS> {
    /// The matrix with `elem` in every place.
    pub open spec fn filled_spec(elem: T) -> Self {
        Self::from_fn(|row: int, col: int| elem)
    }

    /// The matrix with `elem` where the row equals the column and `rest`
    /// everywhere else.
    pub open spec fn diagonal(rest: T, elem: T) -> Self {
        Self::from_fn(
            |row: int, col: int|
                if row == col {
                    elem
                } else {
                    rest
                },
        )
    }

    /// The matrix whose columns are the arrays of `columns`, in their order.
    pub open spec fn from_cols_spec(columns: [[T; ROWS]; COLS]) -> Self {
        Matrix { elems: columns }
    }

    /// Builds the matrix from its elements in column-major order.
    pub fn from_array<const N: usize>(elems: [T; N]) -> (r: Self)
        requires
            N == ROWS * COLS,
        ensures
            r@ == elems@,
    {
        let built = Self::from_slice(elems.as_slice());
        built.unwrap()
    }

    /// Builds the matrix from its elements in column-major order, if
    /// `elems` holds exactly `ROWS * COLS` of them.
    pub fn from_slice(elems: &[T]) -> (r: Option<Self>)
        ensures
            r is Some <==> elems@.len() == ROWS * COLS,
            r matches Some(m) ==> m@ == elems@,
    {
        let len = elems.len();
        let total = match ROWS.checked_mul(COLS) {
            Some(n) => n,
            None => {
                return None;
            },
        };
        if len != total {
            return None;
        }
        let mut columns: Vec<[T; ROWS]> = Vec::new();
        for col in 0..COLS
            invariant
                elems@.len() == ROWS * COLS,
                ROWS * COLS <= usize::MAX,
                columns@.len() == col,
                forall|c: int, r: int|
                    0 <= c < col && 0 <= r < ROWS ==> (#[trigger] columns@[c]@[r])
                        == elems@[c * ROWS + r],
        {
            proof {
                assert(0 <= col * ROWS && col * ROWS + ROWS <= ROWS * COLS) by (nonlinear_arith)
                    requires
                        0 <= col < COLS,
                        0 <= ROWS,
                ;
            }
            let start: usize = col * ROWS;
            let part = vstd::slice::slice_subrange(elems, start, start + ROWS);
            let column = array_of::<T, ROWS>(part).unwrap();
            columns.push(column);
        }
        let m = Matrix { elems: array_of::<[T; ROWS], COLS>(columns.as_slice()).unwrap() };
        proof {
            assert forall|i: int| 0 <= i < ROWS * COLS implies m@[i] == elems@[i] by {
                Self::lemma_place(i);
            }
            assert(m@ =~= elems@);
        }
        Some(m)
    }

    /// A matrix with `elem` in every place.
    pub fn filled(elem: T) -> (r: Self)
        ensures
            r == Self::filled_spec(elem),
    {
        let m = Matrix { elems: [[elem; ROWS]; COLS] };
        proof {
            broadcast use vstd::array::group_array_axioms, Matrix::lemma_from_fn;

            Self::lemma_ext(m, Self::filled_spec(elem));
        }
        m
    }

    /// A matrix of zeros.
    pub fn empty() -> (r: Self) where T: From<u8>
        ensures
            exists|z: T| call_ensures(T::from, (0u8,), z) && r == Self::filled_spec(z),
            T::obeys_from_spec() ==> r == Self::filled_spec(zero::<T>()),
            T::obeys_from_spec() ==> r@ == Seq::new((ROWS * COLS) as nat, |i: int| zero::<T>()),
    {
        proof {
            Self::lemma_filled_view(zero::<T>());
        }
        Self::filled(T::from(0u8))
    }

    /// A matrix with `elem` down the diagonal and zeros elsewhere.
    pub fn identity_elems(elem: T) -> (r: Self) where T: From<u8>
        ensures
            exists|z: T| call_ensures(T::from, (0u8,), z) && r == Self::diagonal(z, elem),
            T::obeys_from_spec() ==> r == Self::diagonal(zero::<T>(), elem),
    {
        broadcast use Matrix::lemma_from_fn;

        let z = T::from(0u8);
        let mut m = Self::filled(z);
        let n: usize = if ROWS < COLS {
            ROWS
        } else {
            COLS
        };
        for i in 0..n
            invariant
                n <= ROWS,
                n <= COLS,
                forall|row: int, col: int|
                    Self::in_bounds(row, col) ==> #[trigger] m.at(row, col) == (if row == col
                        && row < i {
                        elem
                    } else {
                        z
                    }),
        {
            let ghost before = m;
            m.set(i, i, elem);
            assert forall|row: int, col: int| Self::in_bounds(row, col) implies #[trigger] m.at(
                row,
                col,
            ) == (if row == col && row < i + 1 {
                elem
            } else {
                z
            }) by {
                broadcast use Matrix::lemma_from_fn;

                assert(m.at(row, col) == before.with(i as int, i as int, elem).at(row, col));
            }
        }
        proof {
            Self::lemma_ext(m, Self::diagonal(z, elem));
        }
        m
    }

    /// The identity matrix: ones down the diagonal and zeros elsewhere.
    pub fn identity() -> (r: Self) where T: From<u8>
        ensures
            exists|z: T, o: T|
                call_ensures(T::from, (0u8,), z) && call_ensures(T::from, (1u8,), o) && r
                    == Self::diagonal(z, o),
            T::obeys_from_spec() ==> r == Self::diagonal(zero::<T>(), one::<T>()),
    {
        Self::identity_elems(T::from(1u8))
    }

    /// Builds the matrix from its columns.
    pub fn from_cols(columns: [[T; ROWS]; COLS]) -> (r: Self)
        ensures
            r == Self::from_cols_spec(columns),
    {
        Matrix { elems: columns }
    }
}

impl<T: Copy + From<u8>, const ROWS: usize, const COLS: usize> Default for Matrix<T, ROWS, COLS> {
    /// The default matrix is the identity matrix.
    fn default() -> (r: Self)
        ensures
            exists|z: T, o: T|
                call_ensures(T::from, (0u8,), z) && call_ensures(T::from, (1u8,), o) && r
                    == Self::diagonal(z, o),
            T::obeys_from_spec() ==> r == Self::diagonal(zero::<T>(), one::<T>()),
    {
        Self::identity()
    }
}

} // verus!
