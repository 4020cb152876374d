//! Core of a sumcheck-based proving toolkit over binary tower fields.
//!
//! The crate provides the packed tower-field algebra, univariate evaluation
//! domains with barycentric extrapolation, multilinear polynomial access,
//! composition polynomials, an oracle registry with a constraint-system
//! builder and witness index, the sumcheck round-evaluation engine, and the
//! arithmetization of the Grøstl-P permutation as a worked example.

pub mod builder;
pub mod channel;
pub mod composition;
pub mod error;
pub mod expr;
pub mod field;
pub mod groestl;
pub mod laws;
pub mod matrix;
pub mod multilinear;
pub mod oracle;
pub mod packed;
pub mod sumcheck;
pub mod univariate;
pub mod witness;

use vstd::prelude::*;

verus! {

} // verus!
