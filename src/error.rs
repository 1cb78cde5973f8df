use vstd::prelude::*;

verus! {

/// The error taxonomy of the backend.
#[derive(Clone, Copy, Debug, PartialEq, Eq, Structural)]
pub enum ApiError {
    /// No row has the requested id.
    NotFound,
    /// The payload is malformed, empty, or names a column outside the schema.
    Validation,
    /// The relational store failed.
    Store,
    /// The text-generation service failed or replied with unparseable content.
    Upstream,
}

impl ApiError {
    pub open spec fn spec_status(self) -> u16 {
        match self {
            ApiError::NotFound => 404,
            ApiError::Validation => 400,
            ApiError::Store => 500,
            ApiError::Upstream => 502,
        }
    }

    /// The HTTP status that reports this error.
    pub fn status_code(&self) -> (r: u16)
        ensures
            r == self.spec_status(),
    {
        match self {
            ApiError::NotFound => 404,
            ApiError::Validation => 400,
            ApiError::Store => 500,
            ApiError::Upstream => 502,
        }
    }
}

} // verus!
