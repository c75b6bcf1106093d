//! The failures that array operations report.

use vstd::prelude::*;

verus! {

/// Why an operation on an array was rejected.
///
/// Every failure is reported to the immediate caller; nothing is retried and
/// nothing is left half-built.
#[derive(Debug, Clone, Copy, PartialEq, Eq, Structural)]
pub enum ArrayError {
    /// A range whose start lies beyond its (resolved) end.
    InvalidRange,
    /// An index or a range that reaches beyond the current shape.
    OutOfBounds,
    /// Nested rows of unequal length.
    RaggedRows,
    /// A product whose inner dimensions differ.
    ShapeMismatch,
}

} // verus!
