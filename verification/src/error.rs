//! Error taxonomy of the exporter.
//!
//! Registry-level failures (`NotFound`, `InvalidInput`) are recoverable and
//! handled at the call site; the transport-level variants are reserved for
//! the HTTP layer around the library.

use vstd::prelude::*;

verus! {

/// All errors the exporter distinguishes.
#[derive(Debug, Clone, Copy, PartialEq, Eq, Structural)]
pub enum AppError {
    /// The HTTP listener could not be bound (fatal at startup).
    ListenerBindError,
    /// The HTTP server failed to start serving (fatal at startup).
    ServerStartError,
    /// Internal failure while building a response.
    InternalError,
    /// An operation referenced a metric name that is not registered.
    NotFound,
    /// An operation was given an invalid argument, such as an empty
    /// metric name at registration.
    InvalidInput,
}

impl AppError {
    /// A short human-readable description of the error.
    pub fn message(&self) -> (r: &'static str)
        ensures
            *self == AppError::ListenerBindError ==> r@ == "Failed to bind the listener"@,
            *self == AppError::ServerStartError ==> r@ == "Failed to start the server"@,
            *self == AppError::InternalError ==> r@ == "Internal server error"@,
            *self == AppError::NotFound ==> r@ == "Metric not found"@,
            *self == AppError::InvalidInput ==> r@ == "Invalid input"@,
    {
        match self {
            AppError::ListenerBindError => "Failed to bind the listener",
            AppError::ServerStartError => "Failed to start the server",
            AppError::InternalError => "Internal server error",
            AppError::NotFound => "Metric not found",
            AppError::InvalidInput => "Invalid input",
        }
    }
}

} // verus!
