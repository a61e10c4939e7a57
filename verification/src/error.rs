//! The library's error type.

use vstd::prelude::*;

verus! {

/// Errors reported by Airlock operations.
#[derive(Debug, Clone)]
pub enum AirlockError {
    /// A filesystem location could not be determined or used.
    Filesystem(String),
    /// A git operation failed.
    Git(String),
    /// The service files are not installed.
    ServiceNotInstalled,
    /// The system service manager refused an operation.
    ServiceOperation(String),
    /// The operation is not supported on this platform.
    Unsupported(String),
}

} // verus!
