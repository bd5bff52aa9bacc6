//! Matrices over an arbitrary element type, stored densely or sparsely, and
//! their product.
//!
//! A matrix is described by a [`Grid`]: its shape and its cells in row-major
//! order. The two storage kinds, [`DenseMatrix`] and
//! [`UnstructuredSparseMatrix`], implement the [`Matrix`] trait, and
//! [`matmul`] multiplies any two implementors into a dense result. What the
//! elements are is left to the [`Scalar`] trait.
//!
//! No function of this crate panics on what its contract admits. The
//! conditions that a caller has to meet can be tested with [`has_cell`],
//! [`shape_fits`], [`fills_shape`] and [`can_multiply`].

pub mod dense;
pub mod grid;
pub mod matrix;
pub mod multiply;
pub mod scalar;
pub mod sparse;

pub use dense::{
    create_all_zeros_dense_matrix, dense_matric_from_vector, fills_shape, shape_fits, DenseMatrix,
};
pub use grid::Grid;
pub use matrix::{has_cell, Matrix};
pub use multiply::{can_multiply, matmul};
pub use scalar::Scalar;
pub use sparse::{create_all_zeros_ustructured_sparse_matrix, UnstructuredSparseMatrix};
