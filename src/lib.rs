//! Least-squares polynomial regression: the matrix data model, the design
//! matrix of a polynomial fit, the shape rules of a fit and the pseudo-inverse
//! truncation policy.

pub mod matrix;
pub mod error;
pub mod design;
pub mod regression;
