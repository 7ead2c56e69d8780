//! The error taxonomy of the runner.

use vstd::prelude::*;

verus! {

/// Everything that can go wrong while resolving the platform, gating a step
/// or launching its commands. A child process that runs but exits with a
/// non-zero status is not an error: it is ordinary outcome data.
#[derive(Debug)]
pub enum Error {
    /// The host is none of the supported families.
    UnsupportedSystem,
    /// A command's program could not be launched at all.
    ExecFailed(String),
    /// The system descriptor file could not be opened or read.
    IO(String),
    /// A step's condition failed to parse or did not yield a boolean.
    InvalidExpression(String),
    /// Any other failure, with its message.
    General(String),
    /// A failure that carries no further information.
    Unknown,
}

impl Error {
    /// The full, human-readable message of the error: its kind, followed by
    /// the carried detail where there is one.
    pub fn message(&self) -> (r: String)
        ensures
            *self is UnsupportedSystem ==> r@ == "System is not supported"@,
            *self matches Error::ExecFailed(e) ==> r@ == "Execution failed: "@ + e@,
            *self matches Error::IO(e) ==> r@ == "IO error: "@ + e@,
            *self matches Error::InvalidExpression(e) ==> r@ == "Invalid expression: "@ + e@,
            *self matches Error::General(e) ==> r@ == "Error: "@ + e@,
            *self is Unknown ==> r@ == "An unknown error occurred"@,
    {
        match self {
            Error::UnsupportedSystem => String::from_str("System is not supported"),
            Error::ExecFailed(e) => String::from_str("Execution failed: ").concat(e.as_str()),
            Error::IO(e) => String::from_str("IO error: ").concat(e.as_str()),
            Error::InvalidExpression(e) => String::from_str("Invalid expression: ").concat(
                e.as_str(),
            ),
            Error::General(e) => String::from_str("Error: ").concat(e.as_str()),
            Error::Unknown => String::from_str("An unknown error occurred"),
        }
    }

    /// A short, fixed description of the error kind.
    pub fn description(&self) -> (r: &'static str)
        ensures
            *self is UnsupportedSystem ==> r@ == "unsupported system"@,
            *self is ExecFailed ==> r@ == "execution failed"@,
            *self is IO ==> r@ == "io error"@,
            *self is InvalidExpression ==> r@ == "invalid expression"@,
            *self is General ==> r@ == "general error"@,
            *self is Unknown ==> r@ == "unknown error"@,
    {
        match self {
            Error::UnsupportedSystem => "unsupported system",
            Error::ExecFailed(_) => "execution failed",
            Error::IO(_) => "io error",
            Error::InvalidExpression(_) => "invalid expression",
            Error::General(_) => "general error",
            Error::Unknown => "unknown error",
        }
    }
}

} // verus!
