use vstd::prelude::*;

use crate::record::TransferResponse;

verus! {

/// Why a call to the remote service failed.
#[derive(Debug, PartialEq, Eq)]
pub enum RemoteFailure {
    /// The service answered with this HTTP status.
    Status(u16),
    /// No answer came; the text says why.
    Network(String),
    /// The answer lacked what the protocol requires; the text says what.
    Malformed(String),
}

/// Every failure the registry reports to its caller.
#[derive(Debug, PartialEq, Eq)]
pub enum TransferError {
    /// The path does not denote a regular file.
    NotAFile,
    /// The file holds no bytes.
    EmptyFile,
    /// The file is larger than the remote service accepts.
    OversizeFile,
    /// A local file could not be read; the text says why.
    Io(String),
    /// A call to the remote service failed.
    Remote(RemoteFailure),
    /// The local store could not record a change. When the remote upload had
    /// already succeeded, `orphan` carries its link and deletion credential so
    /// that the remote object can still be found and revoked.
    Persistence { message: String, orphan: Option<TransferResponse> },
    /// The system clock reads a time before the Unix epoch.
    Clock,
    /// A timestamp has no calendar date.
    InvalidDate,
}

} // verus!
