//! The failures that the toolkit reports, one type per operation that can
//! fail. Each failure is detected and returned by the call that met it.

use vstd::prelude::*;

verus! {

/// Why a dot product was refused.
#[derive(Clone, Copy, Debug, PartialEq, Eq, Structural)]
pub enum DotError {
    /// The two vectors differ in length.
    UnequalLength,
    /// Both vectors have length zero.
    EmptyVector,
}

/// Why a cross product was refused.
#[derive(Clone, Copy, Debug, PartialEq, Eq, Structural)]
pub enum CrossError {
    /// At least one operand has length zero.
    EmptyVector,
    /// Both operands are non-empty and at least one is not of length three.
    NotThreeDimensional,
}

/// Why a Newton-Raphson run stopped without an estimate.
#[derive(Clone, Copy, Debug, PartialEq, Eq, Structural)]
pub enum NewtonError {
    /// The derivative at the current estimate is the sentinel, so the local
    /// linear approximation cannot be inverted.
    DivisionByZero,
}

impl DotError {
    /// The text that describes this failure.
    pub open spec fn message_spec(self) -> Seq<char> {
        match self {
            DotError::UnequalLength => "Vectors are not equal lengths."@,
            DotError::EmptyVector => "Vectors are empty."@,
        }
    }

    /// Renders the failure as text.
    pub fn message(&self) -> (text: String)
        ensures
            text@ == self.message_spec(),
    {
        match self {
            DotError::UnequalLength => "Vectors are not equal lengths.".to_owned(),
            DotError::EmptyVector => "Vectors are empty.".to_owned(),
        }
    }
}

impl CrossError {
    /// The text that describes this failure.
    pub open spec fn message_spec(self) -> Seq<char> {
        match self {
            CrossError::EmptyVector => "One or more vectors are empty"@,
            CrossError::NotThreeDimensional => "One or more vectors are not 3d"@,
        }
    }

    /// Renders the failure as text.
    pub fn message(&self) -> (text: String)
        ensures
            text@ == self.message_spec(),
    {
        match self {
            CrossError::EmptyVector => "One or more vectors are empty".to_owned(),
            CrossError::NotThreeDimensional => "One or more vectors are not 3d".to_owned(),
        }
    }
}

impl NewtonError {
    /// The text that describes this failure.
    pub open spec fn message_spec(self) -> Seq<char> {
        match self {
            NewtonError::DivisionByZero => "ERROR: Divide by zero."@,
        }
    }

    /// Renders the failure as text.
    pub fn message(&self) -> (text: String)
        ensures
            text@ == self.message_spec(),
    {
        match self {
            NewtonError::DivisionByZero => "ERROR: Divide by zero.".to_owned(),
        }
    }
}

} // verus!
