//! The words for a row and a column that lie outside a matrix.
use crate::matrix::Matrix;
use vstd::prelude::*;

verus! {

/// The character for the digit `d`, a number below ten.
pub open spec fn digit(d: nat) -> char
    recommends
        d < 10,
{
    "0123456789"@[d as int]
}

/// The number `n` written in decimal, without leading zeros.
pub open spec fn decimal(n: nat) -> Seq<char>
    decreases n,
{
    if n < 10 {
        seq![digit(n)]
    } else {
        decimal(n / 10).push(digit(n % 10))
    }
}

/// Calls std's `format!` with `{}` on a `usize`, which writes the number in
/// decimal: its digits from the highest to the lowest, no sign, no leading
/// zero, and `0` for zero.
#[verifier::external_body]
fn decimal_string(n: usize) -> (r: String)
    ensures
        r@ == decimal(n as nat),
{
    format!("{}", n)
}

/// Calls `String::push_str`, which appends the characters of `more` to
/// `text` and leaves those that `text` had in place.
#[verifier::external_body]
fn append(text: &mut String, more: &str)
    ensures
        final(text)@ == old(text)@ + more@,
{
    text.push_str(more)
}

impl<T, const ROWS: usize, const COLS: usize> Matrix<T, ROWS, COLS> {
    /// The message for `row` and `col` outside a matrix of this shape.
    pub open spec fn bounds_message_spec(row: usize, col: usize) -> Seq<char> {
        "matrix index "@ + decimal(row as nat) + ","@ + decimal(col as nat)
            + " out of bounds for matrix of size "@ + decimal(ROWS as nat) + "x"@ + decimal(
            COLS as nat,
        )
    }

    /// The message that tells of an access to `row` and `col` outside a
    /// matrix of this shape. It names the row, the column, and the numbers
    /// of rows and of columns of the matrix.
    pub fn bounds_message(row: usize, col: usize) -> (r: String)
        ensures
            r@ == Self::bounds_message_spec(row, col),
    {
        let mut text = "matrix index ".to_owned();
        append(&mut text, decimal_string(row).as_str());
        append(&mut text, ",");
        append(&mut text, decimal_string(col).as_str());
        append(&mut text, " out of bounds for matrix of size ");
        append(&mut text, decimal_string(ROWS).as_str());
        append(&mut text, "x");
        append(&mut text, decimal_string(COLS).as_str());
        text
    }
}

} // verus!
