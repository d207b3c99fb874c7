//! Matrices whose numbers of rows and columns are part of their type.
//!
//! A [`Matrix`] stores its elements column by column in one flat buffer, so
//! that the element in `row` and `col` is the one in position
//! `col * ROWS + row`. Shapes that do not fit an operation are refused by the
//! compiler: a sum takes two matrices of one shape, and a product takes a
//! left operand with as many columns as the right one has rows.
//!
//! The element type is a parameter. Construction, element access and the
//! conversion from and to columns work for every `Copy` type; the arithmetic
//! goes through the operators of the element type.
pub mod access;
pub mod arith;
pub mod construct;
pub mod equality;
pub mod laws;
pub mod matrix;
pub mod message;
pub mod product;
pub mod semiring;

pub use matrix::Matrix;
pub use matrix::Matrix2;
pub use matrix::Matrix3;
pub use matrix::Matrix4;
pub use matrix::Vector;
pub use matrix::Vector2;
pub use matrix::Vector3;
pub use matrix::Vector4;
