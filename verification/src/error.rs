//! Error taxonomy: fatal contract violations versus recoverable
//! capability-unsupported conditions.

use vstd::prelude::*;

verus! {

/// An error of the templating core.
///
/// Contract violations mean the template text and its call sites have
/// drifted out of sync; they are unrecoverable and must be fixed in code.
/// A capability-unsupported error is recoverable: the caller decides
/// whether to ignore or propagate it.
#[derive(Debug)]
pub enum SqlError {
    /// Contract violation: a parameter name unknown to the template was
    /// rebound. Fatal.
    UnknownParam(String),
    /// Contract violation: a value that does not serialize as a literal
    /// string was bound to a text slice. Fatal.
    NotLiteral(String),
    /// The operation has no defined meaning on the requested dialect.
    /// Recoverable.
    Unsupported(String),
}

impl SqlError {
    /// Whether this error signals an unrecoverable contract violation.
    pub fn is_fatal(&self) -> (r: bool)
        ensures
            r == !(self is Unsupported),
    {
        match self {
            SqlError::UnknownParam(_) => true,
            SqlError::NotLiteral(_) => true,
            SqlError::Unsupported(_) => false,
        }
    }

    /// The name or description the error carries.
    pub fn detail(&self) -> (r: &str)
        ensures
            r@ == match self {
                SqlError::UnknownParam(s) => s@,
                SqlError::NotLiteral(s) => s@,
                SqlError::Unsupported(s) => s@,
            },
    {
        match self {
            SqlError::UnknownParam(s) => s.as_str(),
            SqlError::NotLiteral(s) => s.as_str(),
            SqlError::Unsupported(s) => s.as_str(),
        }
    }
}

} // verus!
