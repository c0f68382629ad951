//! A small fixed-dimension linear-algebra kernel, verified end to end:
//! vectors of 2, 3 and 4 components and square matrices of side 2, 3 and 4,
//! with construction, conversion, indexed access, arithmetic, inner products,
//! matrix products and matrix-vector transforms.
//!
//! Scalars are exact 64-bit integers. Every operation's contract is stated
//! over a mathematical model (`model`): a vector or matrix is viewed as a
//! `Seq<int>` (matrices flat, row-major), and the executable routines in
//! `kernel` are proved to compute exactly the model's component-wise sums,
//! scalings, truncating divisions, inner products and matrix products. The
//! algebraic laws — commutativity of addition, associativity of the matrix
//! product, the identity transform, distribution of scaling over addition,
//! non-negativity of a vector's inner product with itself — are proved once
//! over the model in `laws` and so hold for every size.

mod kernel;

pub mod laws;
pub mod matrix2d;
pub mod matrix3d;
pub mod matrix4d;
pub mod model;
pub mod vector2d;
pub mod vector3d;
pub mod vector4d;
