//! The two error taxonomies of the system.  They are deliberately not
//! unified: the differential-testing oracles exist to compare them.

use crate::typechecker::Type;
use vstd::prelude::*;

verus! {

/// Errors raised by evaluation.  A bound-kind conflict (rebinding a name to
/// the other kind of value than it already holds) is reported as
/// `TypeMismatch`.  Every error is fatal to the evaluation that raised it.
#[derive(Debug, Clone, Copy, PartialEq, Eq, Structural)]
pub enum EvalError {
    UnboundVariable,
    TypeMismatch,
    InvalidDereference,
}

/// Errors raised by type checking.
#[derive(Debug, Clone, Copy, PartialEq, Eq, Structural)]
pub enum TypeError {
    Mismatch { expected: Type, got: Type },
    UnboundVariable,
    Other,
}

/// Errors of the textual front end.  Parse failures are reported under this
/// distinct kind and never reach the core.
#[derive(Debug, Clone, Copy, PartialEq, Eq, Structural)]
pub enum ImpParseError {
    Other,
}

/// Result of an evaluation step.
pub type EvalResult<T> = Result<T, EvalError>;

} // verus!
