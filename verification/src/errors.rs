use vstd::prelude::*;

verus! {

/// The failure conditions of the library.
///
/// Every fallible operation reports exactly one of these, and its contract
/// says on which inputs each one is returned.
#[derive(Clone, Copy, Debug, PartialEq, Eq, Structural)]
pub enum MathError {
    /// An integration request whose lower bound exceeds its upper bound.
    InvalidBounds,
    /// A step count that is not positive or, where an even count is
    /// required, odd.
    InvalidStepCount,
    /// Matrix operands, or a replacement row or column, of the wrong shape.
    DimensionMismatch,
    /// A matrix access outside the declared dimensions.
    IndexOutOfBounds,
    /// An error-metric denominator of zero.
    DivisionByZero,
}

} // verus!
