//! Generalized sumcheck / zerocheck protocol core.
//!
//! The engine proves and verifies claims of the form "a composite polynomial,
//! built from several multilinear polynomials over a Boolean hypercube, sums
//! to (or is identically zero over) a claimed value", reducing such a claim
//! round by round to a single point-evaluation claim.

pub mod backend;
pub mod batch;
pub mod challenger;
pub mod common;
pub mod composition;
pub mod domain;
pub mod field;
pub mod multilinear;
pub mod oracle;
pub mod prodcheck;
pub mod prover_state;
pub mod reduce;
pub mod sumcheck;
pub mod zerocheck;
pub mod univariate;
