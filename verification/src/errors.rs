use vstd::prelude::*;

verus! {

/// Errors reported by the routing engine.
///
/// Start-up failures are fatal to the surrounding program; steady-state
/// failures are contained to a single dispatch or reload attempt.
#[derive(Debug, Clone)]
pub enum JError {
    /// A required value was absent.
    MissingValue(String),
    /// A path could not be used where one was needed.
    InvalidPath(String),
    /// A name filter could not be compiled into a matcher.
    PatternError(String),
    /// A filesystem primitive failed while an action was applied.
    ActionFailed(String),
}

impl JError {
    /// A human-readable description of the error.
    pub fn message(&self) -> (r: String)
        ensures
            self matches JError::MissingValue(v) ==> r@ == "Missing value: "@ + v@,
            self matches JError::InvalidPath(v) ==> r@ == "Invalid path: "@ + v@,
            self matches JError::PatternError(v) ==> r@ == "Invalid name filter: "@ + v@,
            self matches JError::ActionFailed(v) ==> r@ == "Action failed: "@ + v@,
    {
        match self {
            JError::MissingValue(v) => {
                let mut s = String::from_str("Missing value: ");
                s.append(v.as_str());
                s
            },
            JError::InvalidPath(v) => {
                let mut s = String::from_str("Invalid path: ");
                s.append(v.as_str());
                s
            },
            JError::PatternError(v) => {
                let mut s = String::from_str("Invalid name filter: ");
                s.append(v.as_str());
                s
            },
            JError::ActionFailed(v) => {
                let mut s = String::from_str("Action failed: ");
                s.append(v.as_str());
                s
            },
        }
    }
}

} // verus!
