//! Small numerical utilities: evenly spaced sample sequences, composite
//! quadrature rules (Simpson's and trapezoidal weighting), and a dense
//! two-dimensional matrix with basic arithmetic.
//!
//! Scalar arithmetic is supplied by the caller through closures, so every
//! structural decision made here — validation, weighting, index bookkeeping —
//! is stated in a contract and proved.

pub mod errors;
pub mod matrix;
pub mod quadrature;
pub mod sequence;

pub use errors::MathError;
pub use matrix::Matrix;
pub use matrix::create_identity_matrix;
pub use matrix::create_matrix;
pub use matrix::create_numbered_matrix;
pub use matrix::is_transpose_of;
pub use matrix::lemma_addition_subtraction_round_trip;
pub use matrix::lemma_transpose_involution;
pub use matrix::matrix_addition;
pub use matrix::matrix_subtraction;
pub use matrix::matrix_transpose;
pub use quadrature::accumulate;
pub use quadrature::is_accumulation;
pub use quadrature::is_weighted_term;
pub use quadrature::simpson_coefficients;
pub use quadrature::simpson_weight;
pub use quadrature::trapezoid_coefficients;
pub use quadrature::trapezoid_weight;
pub use quadrature::validate_integration_request;
pub use quadrature::validate_step_count;
pub use quadrature::weighted_terms;
pub use sequence::create_sequential_vec;
pub use sequence::is_sample_walk;
pub use sequence::lemma_walk_endpoints;
pub use sequence::lemma_walk_single_when_start_rejected;
