//! The error taxonomy of the library. Backend failures keep their kind; local
//! filesystem failures are `Io`; the uploader's eager pre-condition checks
//! fail with the two path errors.

use vstd::prelude::*;
use vstd::string::StringExecFns;

verus! {

/// Every failure a storage command can report.
#[derive(Clone, Copy, Debug, PartialEq, Eq, Structural)]
pub enum StorageError {
    /// The local path does not exist, or its kind does not fit the flags.
    InvalidLocalPath,
    /// The remote anchor an upload targets does not exist.
    RemotePathMissing,
    /// A provider name that the configuration surface does not know.
    UnsupportedProvider,
    /// The backend reports the path as not found.
    BackendNotFound,
    /// The backend denies permission.
    BackendPermission,
    /// The backend reports a transport-level failure.
    BackendNetwork,
    /// Any other backend failure.
    BackendOther,
    /// A local filesystem operation failed.
    Io,
}

/// The user-facing message of an error.
pub open spec fn spec_describe(e: StorageError) -> Seq<char> {
    match e {
        StorageError::InvalidLocalPath => "local path does not exist or is illegal"@,
        StorageError::RemotePathMissing => "remote path does not exist"@,
        StorageError::UnsupportedProvider => "unsupported storage provider"@,
        StorageError::BackendNotFound => "backend: not found"@,
        StorageError::BackendPermission => "backend: permission denied"@,
        StorageError::BackendNetwork => "backend: network error"@,
        StorageError::BackendOther => "backend: operation failed"@,
        StorageError::Io => "local filesystem error"@,
    }
}

impl StorageError {
    /// Render the error for display.
    pub fn describe(&self) -> (r: String)
        ensures
            r@ == spec_describe(*self),
    {
        match self {
            StorageError::InvalidLocalPath => String::from_str(
                "local path does not exist or is illegal",
            ),
            StorageError::RemotePathMissing => String::from_str("remote path does not exist"),
            StorageError::UnsupportedProvider => String::from_str("unsupported storage provider"),
            StorageError::BackendNotFound => String::from_str("backend: not found"),
            StorageError::BackendPermission => String::from_str("backend: permission denied"),
            StorageError::BackendNetwork => String::from_str("backend: network error"),
            StorageError::BackendOther => String::from_str("backend: operation failed"),
            StorageError::Io => String::from_str("local filesystem error"),
        }
    }
}

} // verus!
