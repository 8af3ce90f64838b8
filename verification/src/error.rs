//! The two failures an audit can end with.

use vstd::prelude::*;
use vstd::string::StringExecFns;

verus! {

/// Why an audit stopped.
#[derive(Debug)]
pub enum AuditError {
    /// A fault of the surroundings: a tool that did not run, a registry that
    /// did not answer, a lockfile that could not be read.
    Unexpected(String),
    /// No repair exists.
    Functionality(String),
}

impl AuditError {
    /// The message carried by the error.
    pub open spec fn message(self) -> Seq<char> {
        match self {
            AuditError::Unexpected(m) => m@,
            AuditError::Functionality(m) => m@,
        }
    }

    /// The exit code the process ends with on this error.
    pub open spec fn code(self) -> int {
        match self {
            AuditError::Unexpected(_) => -1,
            AuditError::Functionality(_) => -2,
        }
    }

    /// The line shown to the user for this error.
    pub open spec fn rendered(self) -> Seq<char> {
        match self {
            AuditError::Unexpected(m) => "unexpected error: "@ + m@,
            AuditError::Functionality(m) => "functionality error: "@ + m@,
        }
    }

    /// Whether the error is a fault of the surroundings.
    pub fn is_unexpected(&self) -> (r: bool)
        ensures
            r == (*self is Unexpected),
    {
        match self {
            AuditError::Unexpected(_) => true,
            AuditError::Functionality(_) => false,
        }
    }

    /// The exit code the process ends with on this error.
    pub fn exit_code(&self) -> (r: i32)
        ensures
            r == self.code(),
    {
        match self {
            AuditError::Unexpected(_) => -1,
            AuditError::Functionality(_) => -2,
        }
    }

    /// An infrastructure fault with the given message.
    pub fn unexpected(msg: &str) -> (r: AuditError)
        ensures
            r is Unexpected,
            r.message() == msg@,
    {
        AuditError::Unexpected(String::from_str(msg))
    }

    /// A failed repair with the given message.
    pub fn functionality(msg: &str) -> (r: AuditError)
        ensures
            r is Functionality,
            r.message() == msg@,
    {
        AuditError::Functionality(String::from_str(msg))
    }

    /// The error as one line of text, its kind first.
    pub fn to_text(&self) -> (r: String)
        ensures
            r@ == self.rendered(),
    {
        match self {
            AuditError::Unexpected(m) => String::from_str("unexpected error: ").concat(m.as_str()),
            AuditError::Functionality(m) => String::from_str("functionality error: ").concat(
                m.as_str(),
            ),
        }
    }

    /// A copy of the error.
    pub fn duplicate(&self) -> (r: AuditError)
        ensures
            r == *self,
    {
        match self {
            AuditError::Unexpected(m) => AuditError::Unexpected(m.clone()),
            AuditError::Functionality(m) => AuditError::Functionality(m.clone()),
        }
    }
}

} // verus!
