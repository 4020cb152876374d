//! Error taxonomy shared by the whole crate: construction errors raised by
//! the builder and domain constructors, query errors raised when a
//! composition is evaluated, and access errors raised by the round engine.

use vstd::prelude::*;

verus! {

/// Everything that can go wrong in this crate.
#[derive(Clone, Copy, Debug, PartialEq, Eq, Structural)]
pub enum Error {
    /// An inner oracle does not have the number of variables the composite
    /// expects.
    IncorrectNumberOfVariables { expected: usize },
    /// The number of inner oracles does not match the composition arity.
    CompositionMismatch,
    /// More domain points were requested than the field holds.
    DomainSizeTooLarge,
    /// Two equal points were handed to a domain constructor.
    DuplicateDomainPoint,
    /// A query with the wrong number of entries was handed to `evaluate`.
    IncorrectQuerySize { expected: usize },
    /// An index of an `IndexComposition` is not below its outer arity.
    IndexCompositionIndicesOutOfBounds,
    /// A subset element was not found in the superset.
    MixedMultilinearNotFound,
    /// The number of evaluations handed to `extrapolate` or `interpolate`
    /// does not match the domain size.
    ExtrapolateNumberOfEvaluations,
    /// A destination slice of the round engine has the wrong length.
    IncorrectDestSliceLengths,
    /// The low-to-high access method was called without scratch space.
    NoScratchSpace,
    /// The finite evaluation points do not cover the point schedule past
    /// the indices 0, 1 and infinity.
    IncorrectNontrivialEvalPointsLength,
    /// `mul_primitive` was asked for a tower element the field does not
    /// reach.
    MulPrimitiveLevelOutOfRange,
    /// An oracle id is not registered.
    OracleNotFound,
    /// A witness column was stored at a different tower level than the
    /// one requested.
    TowerLevelMismatch,
    /// The operands of a linear combination do not share a log size.
    LogSizeMismatch,
    /// A witness column is missing or was stored at another tower level.
    WitnessNotFound,
    /// A witness column has the wrong length for its oracle.
    WitnessSizeMismatch,
    /// A constraint does not evaluate to zero everywhere on the hypercube.
    WitnessInvalid,
}

} // verus!
