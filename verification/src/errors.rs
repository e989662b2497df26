//! Error values returned by buffer, matrix and mentor operations.
//!
//! Every violation is reported to the caller at the point where it is
//! detected, together with an annotation naming the operation that
//! triggered it; nothing is silently corrected.

use vstd::prelude::*;

verus! {

/// The operation during which an error was detected.
#[derive(Debug, Clone, Copy, PartialEq, Eq, Structural)]
pub enum Annotation {
    /// The error carries no annotation.
    Unannotated,
    /// Detected while assigning one unbiased buffer to another.
    UnbiasedBufferAssign,
    /// Detected while constructing a weights or delta matrix.
    MatrixConstruction,
    /// Detected while validating a training sample against a topology.
    SampleValidation,
}

/// The kind of a detected violation.
#[derive(Debug, Clone, Copy, PartialEq, Eq, Structural)]
pub enum ErrorKind {
    /// A buffer of length zero was requested or supplied.
    ZeroSizedBuffer,
    /// Fewer values were supplied than the construction needs.
    TooFewValues { expected_min: usize, actual: usize },
    /// The trailing element of caller-supplied data does not equal the
    /// required bias constant; both are binary32 bit patterns.
    UnmatchingBiasValue { expected: u32, actual: u32 },
    /// Two buffers that must have equal dimensions do not.
    UnmatchingBufferSizes { lhs: usize, rhs: usize },
    /// A buffer's dimension does not fit a matrix's shape.
    UnmatchingMatrixShapes { expected: usize, actual: usize },
}

/// An error: the kind of the violation plus an annotation naming the
/// operation that detected it.
#[derive(Debug, Clone, Copy, PartialEq, Eq, Structural)]
pub struct Error {
    pub kind: ErrorKind,
    pub annotation: Annotation,
}

impl Error {
    /// The kind of the violation.
    pub fn kind(&self) -> (r: ErrorKind)
        ensures
            r == self.kind,
    {
        self.kind
    }

    /// The annotation carried by this error.
    pub fn annotation(&self) -> (r: Annotation)
        ensures
            r == self.annotation,
    {
        self.annotation
    }

    /// Replaces the annotation, keeping the kind.
    pub fn with_annotation(self, annotation: Annotation) -> (r: Error)
        ensures
            r.kind == self.kind,
            r.annotation == annotation,
    {
        Error { kind: self.kind, annotation }
    }

    /// A zero-sized buffer was requested or supplied.
    pub fn attempt_to_create_zero_sized_buffer() -> (r: Error)
        ensures
            r.kind == ErrorKind::ZeroSizedBuffer,
            r.annotation == Annotation::Unannotated,
    {
        Error { kind: ErrorKind::ZeroSizedBuffer, annotation: Annotation::Unannotated }
    }

    /// Fewer values were supplied than a buffer construction needs.
    pub fn too_few_values_provided_for_buffer_creation(expected_min: usize, actual: usize) -> (r:
        Error)
        ensures
            r.kind == (ErrorKind::TooFewValues { expected_min, actual }),
            r.annotation == Annotation::Unannotated,
    {
        Error { kind: ErrorKind::TooFewValues { expected_min, actual }, annotation: Annotation::Unannotated }
    }

    /// Caller-supplied data ends in the wrong bias value.
    pub fn unmatching_user_provided_bias_value(expected: u32, actual: u32) -> (r: Error)
        ensures
            r.kind == (ErrorKind::UnmatchingBiasValue { expected, actual }),
            r.annotation == Annotation::Unannotated,
    {
        Error { kind: ErrorKind::UnmatchingBiasValue { expected, actual }, annotation: Annotation::Unannotated }
    }

    /// Two buffers that must have equal dimensions do not.
    pub fn unmatching_buffer_sizes(lhs: usize, rhs: usize) -> (r: Error)
        ensures
            r.kind == (ErrorKind::UnmatchingBufferSizes { lhs, rhs }),
            r.annotation == Annotation::Unannotated,
    {
        Error { kind: ErrorKind::UnmatchingBufferSizes { lhs, rhs }, annotation: Annotation::Unannotated }
    }

    /// A buffer's dimension does not fit a matrix's shape.
    pub fn unmatching_matrix_shapes(expected: usize, actual: usize) -> (r: Error)
        ensures
            r.kind == (ErrorKind::UnmatchingMatrixShapes { expected, actual }),
            r.annotation == Annotation::Unannotated,
    {
        Error { kind: ErrorKind::UnmatchingMatrixShapes { expected, actual }, annotation: Annotation::Unannotated }
    }
}

} // verus!
