//! The errors that reading and evaluating can end in.

use vstd::prelude::*;

verus! {

/// Why a unit term or an expression was refused.
#[derive(Debug, Clone, Copy, PartialEq, Eq, Structural)]
pub enum Error {
    /// A closing bracket without its opening one, or a character that starts
    /// no token.
    Lexical,
    /// A division with nothing to divide by, an operator without a quantity
    /// behind it, no quantity at the start, or two quantities in a row.
    Parse,
    /// An addition or a subtraction of quantities whose unit terms are not
    /// equal.
    DimensionMismatch,
    /// A reduction to base units that went deeper than the limit, or met a
    /// definition that is no unit term.
    Reduction,
    /// An exponent outside the range of a signed 8-bit integer, or a
    /// magnitude that cannot be read or held.
    Numeric,
}

} // verus!
