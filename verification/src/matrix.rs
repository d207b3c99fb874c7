//! The matrix type, its mathematical model, and the facts that relate the
//! stored arrays to that model.
use vstd::prelude::*;

verus! {

/// A matrix of `ROWS` rows and `COLS` columns.
#[derive(Debug)]
pub struct Matrix<T, const ROWS: usize, const COLS: usize> {
    /// The elements, one array for each column: `elems[col][row]`. Laid out
    /// in memory this is the column-major sequence of the elements.
    pub elems: [[T; ROWS]; COLS],
}

impl<T: Copy, const ROWS: usize, const COLS: usize> Clone for Matrix<T, ROWS, COLS> {
    /// A copy, element for element.
    fn clone(&self) -> (r: Self)
        ensures
            r == *self,
    {
        *self
    }
}

impl<T: Copy, const ROWS: usize, const COLS: usize> Copy for Matrix<T, ROWS, COLS> {}

/// A column vector: a matrix of one column.
pub type Vector<T, const ROWS: usize> = Matrix<T, ROWS, 1>;

/// A matrix of 2 rows and 2 columns.
pub type Matrix2<T> = Matrix<T, 2, 2>;

/// A matrix of 3 rows and 3 columns.
pub type Matrix3<T> = Matrix<T, 3, 3>;

/// A matrix of 4 rows and 4 columns.
pub type Matrix4<T> = Matrix<T, 4, 4>;

/// A column vector of 2 rows.
pub type Vector2<T> = Vector<T, 2>;

/// A column vector of 3 rows.
pub type Vector3<T> = Vector<T, 3>;

/// A column vector of 4 rows.
pub type Vector4<T> = Vector<T, 4>;

/// An array that holds `f(i)` in each position `i` below `n`.
spec fn array_upto<T, const N: usize>(f: spec_fn(int) -> T, n: nat) -> [T; N]
    decreases n,
{
    if n == 0 {
        arbitrary()
    } else {
        vstd::array::spec_array_update(array_upto::<T, N>(f, (n - 1) as nat), n - 1, f(n - 1))
    }
}

proof fn lemma_array_upto<T, const N: usize>(f: spec_fn(int) -> T, n: nat)
    requires
        n <= N,
    ensures
        forall|i: int| 0 <= i < n ==> (#[trigger] array_upto::<T, N>(f, n)@[i]) == f(i),
    decreases n,
{
    broadcast use vstd::array::group_array_axioms;

    if n > 0 {
        let prev = array_upto::<T, N>(f, (n - 1) as nat);
        lemma_array_upto::<T, N>(f, (n - 1) as nat);
        assert(array_upto::<T, N>(f, n)@ == prev@.update(n - 1, f(n - 1)));
    }
}

impl<T, const ROWS: usize, const COLS: usize> Matrix<T, ROWS, COLS> {
    /// Whether `row` and `col` name an element of a matrix of this shape.
    pub open spec fn in_bounds(row: int, col: int) -> bool {
        0 <= row < ROWS && 0 <= col < COLS
    }

    /// The element in `row` and `col`.
    pub open spec fn at(self, row: int, col: int) -> T
        recommends
            Self::in_bounds(row, col),
    {
        self.elems@[col]@[row]
    }

    /// The place of the element in `row` and `col` within the column-major
    /// sequence of all elements.
    pub open spec fn position(row: int, col: int) -> int {
        col * ROWS + row
    }

    /// Whether the element in each `row` and `col` is `f(row, col)`.
    pub open spec fn has_entries(self, f: spec_fn(int, int) -> T) -> bool {
        forall|row: int, col: int|
            Self::in_bounds(row, col) ==> #[trigger] self.at(row, col) == f(row, col)
    }

    /// The matrix whose element in each `row` and `col` is `f(row, col)`.
    pub open spec fn from_fn(f: spec_fn(int, int) -> T) -> Self {
        choose|m: Self| m.has_entries(f)
    }

    /// The matrix that differs from `self` in the one element in `row` and
    /// `col`, which is `value`.
    pub open spec fn with(self, row: int, col: int, value: T) -> Self {
        Self::from_fn(
            |r: int, c: int|
                if r == row && c == col {
                    value
                } else {
                    self.at(r, c)
                },
        )
    }

    /// Column `col` as a column vector.
    pub open spec fn column(self, col: int) -> Matrix<T, ROWS, 1>
        recommends
            0 <= col < COLS,
    {
        Matrix::<T, ROWS, 1>::from_fn(|r: int, c: int| self.at(r, col))
    }

    /// Two matrices that agree on every element are one matrix.
    pub proof fn lemma_ext(a: Self, b: Self)
        requires
            forall|row: int, col: int|
                Self::in_bounds(row, col) ==> #[trigger] a.at(row, col) == b.at(row, col),
        ensures
            a == b,
    {
        broadcast use vstd::array::group_array_axioms;

        assert forall|col: int| 0 <= col < COLS implies a.elems@[col] == b.elems@[col] by {
            assert forall|row: int| 0 <= row < ROWS implies a.elems@[col]@[row]
                == b.elems@[col]@[row] by {
                assert(a.at(row, col) == b.at(row, col));
            }
            assert(a.elems@[col] =~= b.elems@[col]);
        }
        assert(a.elems =~= b.elems);
    }

    /// For every choice of elements there is a matrix that holds them, and
    /// `from_fn` names it.
    pub broadcast proof fn lemma_from_fn(f: spec_fn(int, int) -> T, row: int, col: int)
        requires
            Self::in_bounds(row, col),
        ensures
            #[trigger] Self::from_fn(f).at(row, col) == f(row, col),
    {
        let column = |c: int| array_upto::<T, ROWS>(|r: int| f(r, c), ROWS as nat);
        let m = Matrix::<T, ROWS, COLS> {
            elems: array_upto::<[T; ROWS], COLS>(column, COLS as nat),
        };
        lemma_array_upto::<[T; ROWS], COLS>(column, COLS as nat);
        assert forall|r: int, c: int| Self::in_bounds(r, c) implies #[trigger] m.at(r, c) == f(
            r,
            c,
        ) by {
            lemma_array_upto::<T, ROWS>(|r: int| f(r, c), ROWS as nat);
        }
        assert(m.has_entries(f));
    }

    /// Within the bounds, `position` is below `ROWS * COLS` and determines
    /// the row and the column.
    pub proof fn lemma_position(row: int, col: int)
        requires
            Self::in_bounds(row, col),
        ensures
            0 <= Self::position(row, col) < ROWS * COLS,
            Self::position(row, col) / (ROWS as int) == col,
            Self::position(row, col) % (ROWS as int) == row,
    {
        let rows = ROWS as int;
        let cols = COLS as int;
        assert(0 <= col * rows && col * rows + rows <= rows * cols) by (nonlinear_arith)
            requires
                0 <= col < cols,
                0 < rows,
        ;
        vstd::arithmetic::div_mod::lemma_fundamental_div_mod_converse(
            Self::position(row, col),
            rows,
            col,
            row,
        );
    }

    /// Each place below `ROWS * COLS` is the position of one element.
    pub proof fn lemma_place(i: int)
        requires
            0 <= i < ROWS * COLS,
        ensures
            Self::in_bounds(i % (ROWS as int), i / (ROWS as int)),
            Self::position(i % (ROWS as int), i / (ROWS as int)) == i,
    {
        let rows = ROWS as int;
        let cols = COLS as int;
        assert(rows > 0) by (nonlinear_arith)
            requires
                0 <= i < rows * cols,
                0 <= rows,
        ;
        vstd::arithmetic::div_mod::lemma_fundamental_div_mod(i, rows);
        vstd::arithmetic::div_mod::lemma_mod_bound(i, rows);
        assert(0 <= i / rows < cols) by (nonlinear_arith)
            requires
                0 <= i < rows * cols,
                0 < rows,
                i == rows * (i / rows) + i % rows,
                0 <= i % rows < rows,
        ;
        assert(rows * (i / rows) == (i / rows) * rows) by (nonlinear_arith);
    }
}

impl<T, const ROWS: usize, const COLS: usize> Matrix<T, ROWS, COLS> {
    /// The column-major sequence holds the element in `row` and `col` at
    /// `position(row, col)`.
    pub proof fn lemma_view_at(self, row: int, col: int)
        requires
            Self::in_bounds(row, col),
        ensures
            0 <= Self::position(row, col) < self@.len(),
            self@[Self::position(row, col)] == self.at(row, col),
    {
        Self::lemma_position(row, col);
    }

    /// Two matrices with one column-major sequence are one matrix.
    pub proof fn lemma_view_ext(a: Self, b: Self)
        requires
            a@ == b@,
        ensures
            a == b,
    {
        assert forall|row: int, col: int| Self::in_bounds(row, col) implies #[trigger] a.at(
            row,
            col,
        ) == b.at(row, col) by {
            a.lemma_view_at(row, col);
            b.lemma_view_at(row, col);
        }
        Self::lemma_ext(a, b);
    }
}

impl<T, const ROWS: usize, const COLS: usize> View for Matrix<T, ROWS, COLS> {
    type V = Seq<T>;

    /// All elements in column-major order: first column 0 from its first row
    /// to its last, then column 1, and so on.
    open spec fn view(&self) -> Seq<T> {
        Seq::new(
            (ROWS * COLS) as nat,
            |i: int| self.at(i % (ROWS as int), i / (ROWS as int)),
        )
    }
}

} // verus!
