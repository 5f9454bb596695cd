use vstd::prelude::*;

use crate::errors::{RemoteFailure, TransferError};
use crate::store::RemoteOutcome;

verus! {

/// The service's address; an upload goes to it with the file's name added.
pub const TRANSFER_URL: &'static str = "https://transfer.sh/";

pub const STATUS_OK: u16 = 200;

pub const STATUS_NOT_FOUND: u16 = 404;

/// The part of `path` after its last `/`: all of it when it has none.
pub open spec fn last_segment(path: Seq<char>) -> Seq<char> {
    path.subrange(segment_start(path), path.len() as int)
}

/// Where the last segment of `path` starts: just after its last `/`, or 0.
pub open spec fn segment_start(path: Seq<char>) -> int
    decreases path.len(),
{
    if path.len() == 0 {
        0
    } else if path.last() == '/' {
        path.len() as int
    } else {
        segment_start(path.drop_last())
    }
}

proof fn lemma_segment_start_bounds(path: Seq<char>)
    ensures
        0 <= segment_start(path) <= path.len(),
    decreases path.len(),
{
    if path.len() > 0 && path.last() != '/' {
        lemma_segment_start_bounds(path.drop_last());
    }
}

/// The address to which the file at `file_path` is uploaded: the service's
/// address followed by the file's name, the part of the path after its last
/// `/`.
pub fn upload_url(file_path: &str) -> (r: String)
    ensures
        r@ == TRANSFER_URL@ + last_segment(file_path@),
{
    let n = file_path.unicode_len();
    let mut start: usize = n;
    proof {
        lemma_segment_start_bounds(file_path@);
        assert(file_path@.subrange(0, n as int) =~= file_path@);
    }
    // Walk back from the end to just after the last '/'.
    while start > 0 && file_path.get_char(start - 1) != '/'
        invariant
            start <= n,
            n == file_path@.len(),
            segment_start(file_path@.subrange(0, start as int)) == segment_start(file_path@),
        decreases start,
    {
        let ghost prefix = file_path@.subrange(0, start as int);
        assert(prefix.drop_last() =~= file_path@.subrange(0, start - 1));
        start = start - 1;
    }
    proof {
        let prefix = file_path@.subrange(0, start as int);
        if start > 0 {
            assert(prefix.last() == '/');
        }
    }
    let name = file_path.substring_char(start, n);
    String::from_str(TRANSFER_URL).concat(name)
}

/// Reads the HTTP status of a revocation: success, or an object that had
/// already expired or been deleted, or a failure.
pub fn revocation_outcome(status: u16) -> (r: RemoteOutcome)
    ensures
        status == STATUS_OK ==> r is Removed,
        status == STATUS_NOT_FOUND ==> r is AlreadyGone,
        status != STATUS_OK && status != STATUS_NOT_FOUND ==> (r matches RemoteOutcome::Failed(
            RemoteFailure::Status(s),
        ) && s == status),
{
    if status == STATUS_OK {
        RemoteOutcome::Removed
    } else if status == STATUS_NOT_FOUND {
        RemoteOutcome::AlreadyGone
    } else {
        RemoteOutcome::Failed(RemoteFailure::Status(status))
    }
}

/// Reads the HTTP status of an upload or of a reachability probe: only
/// `200` is success.
pub fn check_status(status: u16) -> (r: Result<(), TransferError>)
    ensures
        status == STATUS_OK ==> r is Ok,
        status != STATUS_OK ==> (r matches Err(TransferError::Remote(RemoteFailure::Status(s)))
            && s == status),
{
    if status == STATUS_OK {
        Ok(())
    } else {
        Err(TransferError::Remote(RemoteFailure::Status(status)))
    }
}

} // verus!
