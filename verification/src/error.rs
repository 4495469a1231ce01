//! The unified error channel of the resolver. `IdentifierNotFound` is the
//! only locally recoverable kind: it drives the fallback strategies
//! (case-insensitive retry, prefix decomposition, next split point). Every
//! other kind, and a cancellation, is propagated unchanged. A cancellation
//! is not truly an error: it is a cooperative stop signal that preempts any
//! other outcome.

use vstd::prelude::*;
use vstd::string::*;
use crate::num::ValueTooLarge;
use crate::strutil::concat_str;

verus! {

/// An outcome other than success, as carried between resolution steps.
#[derive(Debug)]
pub enum FendError {
    /// No unit of this name; the payload is the original, undecomposed
    /// identifier. The one recoverable kind.
    IdentifierNotFound(String),
    /// The cancellation capability asked the computation to stop.
    Interrupt,
    /// The expression evaluator produced a value that is not a number.
    ExpectedANumber,
    /// The expression evaluator has no result for this definition
    /// expression. Opaque and fatal to the current resolution.
    EvaluationFailed(String),
    /// A computed value exceeds an allowed maximum.
    ValueTooLarge(ValueTooLarge),
}

/// The mathematical shape of a `FendError`, with strings as character
/// sequences.
pub enum ErrorV {
    IdentifierNotFound(Seq<char>),
    Interrupt,
    ExpectedANumber,
    EvaluationFailed(Seq<char>),
    ValueTooLarge(Seq<char>),
}

impl View for FendError {
    type V = ErrorV;

    open spec fn view(&self) -> ErrorV {
        match self {
            FendError::IdentifierNotFound(s) => ErrorV::IdentifierNotFound(s@),
            FendError::Interrupt => ErrorV::Interrupt,
            FendError::ExpectedANumber => ErrorV::ExpectedANumber,
            FendError::EvaluationFailed(s) => ErrorV::EvaluationFailed(s@),
            FendError::ValueTooLarge(v) => ErrorV::ValueTooLarge(v.max_allowed@),
        }
    }
}

/// The result is a cancellation outcome.
pub open spec fn is_interrupt<T>(res: Result<T, FendError>) -> bool {
    match res {
        Ok(_) => false,
        Err(e) => e@ is Interrupt,
    }
}

impl FendError {
    /// A human-readable rendering of the error.
    pub fn message(&self) -> (r: String)
        ensures
            r@ == match self@ {
                ErrorV::IdentifierNotFound(s) => "identifier not found: "@ + s,
                ErrorV::Interrupt => "interrupted"@,
                ErrorV::ExpectedANumber => "Expected a number"@,
                ErrorV::EvaluationFailed(s) => "cannot evaluate: "@ + s,
                ErrorV::ValueTooLarge(s) => "Value must be less than or equal to "@ + s,
            },
    {
        match self {
            FendError::IdentifierNotFound(s) => concat_str("identifier not found: ", s.as_str()),
            FendError::Interrupt => String::from_str("interrupted"),
            FendError::ExpectedANumber => String::from_str("Expected a number"),
            FendError::EvaluationFailed(s) => concat_str("cannot evaluate: ", s.as_str()),
            FendError::ValueTooLarge(v) => v.message(),
        }
    }
}

} // verus!
