//! Error type shared by every connector operation.
//!
//! Each variant maps to one HTTP status code at the API layer.  Underlying
//! causes (an I/O failure, a malformed JSON file) are carried as text: the
//! shells that perform the actual I/O translate their errors into these
//! variants before handing control back to the verified logic.

use vstd::prelude::*;

use crate::text::concat2;

verus! {

/// Errors that can occur in connector operations.
#[derive(Debug)]
pub enum ConnectorError {
    /// User is not authenticated.
    NotAuthenticated,
    /// Requested resource does not exist; holds a description of it.
    NotFound(String),
    /// Invalid input data; holds the reason.
    InvalidInput(String),
    /// Filesystem operation failed; holds the underlying cause.
    Io(String),
    /// JSON parsing or serialization failed; holds the underlying cause.
    Json(String),
}

impl ConnectorError {
    /// The HTTP status code this error maps to.
    pub open spec fn spec_status_code(&self) -> u16 {
        match self {
            ConnectorError::NotAuthenticated => 401,
            ConnectorError::NotFound(_) => 404,
            ConnectorError::InvalidInput(_) => 400,
            ConnectorError::Io(_) => 500,
            ConnectorError::Json(_) => 500,
        }
    }

    /// Map the error to its HTTP status code.
    pub fn status_code(&self) -> (r: u16)
        ensures
            r == self.spec_status_code(),
    {
        match self {
            ConnectorError::NotAuthenticated => 401,
            ConnectorError::NotFound(_) => 404,
            ConnectorError::InvalidInput(_) => 400,
            ConnectorError::Io(_) => 500,
            ConnectorError::Json(_) => 500,
        }
    }

    /// The human-readable description of the error.
    pub open spec fn spec_message(&self) -> Seq<char> {
        match self {
            ConnectorError::NotAuthenticated => "Not authenticated"@,
            ConnectorError::NotFound(s) => "Resource not found: "@ + s@,
            ConnectorError::InvalidInput(s) => "Invalid input: "@ + s@,
            ConnectorError::Io(s) => "IO error: "@ + s@,
            ConnectorError::Json(s) => "JSON error: "@ + s@,
        }
    }

    /// Render the error as text.
    pub fn message(&self) -> (r: String)
        ensures
            r@ == self.spec_message(),
    {
        match self {
            ConnectorError::NotAuthenticated => "Not authenticated".to_owned(),
            ConnectorError::NotFound(s) => concat2("Resource not found: ", s.as_str()),
            ConnectorError::InvalidInput(s) => concat2("Invalid input: ", s.as_str()),
            ConnectorError::Io(s) => concat2("IO error: ", s.as_str()),
            ConnectorError::Json(s) => concat2("JSON error: ", s.as_str()),
        }
    }
}

} // verus!
