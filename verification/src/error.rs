//! Error types for the matrix engine and the counter service.

use vstd::prelude::*;

verus! {

/// Errors raised by matrix construction, dot products and multiplication.
#[derive(Clone, Copy, Debug, PartialEq, Eq, Structural)]
pub enum MatrixError {
    /// Two shapes disagree: unequal vector lengths, an inner dimension
    /// mismatch, or a data buffer whose length is not `rows * cols`.
    DimensionMismatch,
    /// A dispatched job's reply never arrived, arrived twice for the same
    /// destination index, or named an index outside the output buffer.
    JobLost,
}

/// Errors raised by the string-keyed counter service.
#[derive(Clone, Copy, Debug, PartialEq, Eq, Structural)]
pub enum MetricsError {
    /// The requested counter name was not registered at construction.
    KeyNotFound,
}

} // verus!
