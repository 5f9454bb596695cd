use vstd::prelude::*;

use crate::errors::TransferError;

verus! {

/// The largest file the remote service accepts: one byte under 1.5 GiB.
pub const MAX_UPLOAD_SIZE: u64 = 1_610_612_735;

pub const KIB: u64 = 1024;

pub const MIB: u64 = 1_048_576;

pub const GIB: u64 = 1_073_741_824;

/// The unit in which a file size is shown.
#[derive(Debug, Clone, Copy, PartialEq, Eq, Structural)]
pub enum SizeUnit {
    Bytes,
    Kilobytes,
    Megabytes,
    Gigabytes,
}

/// The unit for a size in bytes that the service accepts.
pub open spec fn unit_for(size: u64) -> SizeUnit {
    if size < KIB {
        SizeUnit::Bytes
    } else if size < MIB {
        SizeUnit::Kilobytes
    } else if size < GIB {
        SizeUnit::Megabytes
    } else {
        SizeUnit::Gigabytes
    }
}

impl SizeUnit {
    /// The number of bytes in one of this unit.
    pub fn divisor(&self) -> (r: u64)
        ensures
            r == match self {
                SizeUnit::Bytes => 1,
                SizeUnit::Kilobytes => KIB,
                SizeUnit::Megabytes => MIB,
                SizeUnit::Gigabytes => GIB,
            },
    {
        match self {
            SizeUnit::Bytes => 1,
            SizeUnit::Kilobytes => KIB,
            SizeUnit::Megabytes => MIB,
            SizeUnit::Gigabytes => GIB,
        }
    }
}

/// Checks that a path of `size` bytes can be uploaded, and picks the unit in
/// which to show its size: only a regular, non-empty file of at most
/// `MAX_UPLOAD_SIZE` bytes is accepted.
pub fn check_file_size(is_file: bool, size: u64) -> (r: Result<SizeUnit, TransferError>)
    ensures
        !is_file ==> r matches Err(TransferError::NotAFile),
        is_file && size == 0 ==> r matches Err(TransferError::EmptyFile),
        is_file && size > MAX_UPLOAD_SIZE ==> r matches Err(TransferError::OversizeFile),
        is_file && 0 < size <= MAX_UPLOAD_SIZE ==> r == Ok::<SizeUnit, TransferError>(
            unit_for(size),
        ),
{
    if !is_file {
        Err(TransferError::NotAFile)
    } else if size == 0 {
        Err(TransferError::EmptyFile)
    } else if size > MAX_UPLOAD_SIZE {
        Err(TransferError::OversizeFile)
    } else if size < KIB {
        Ok(SizeUnit::Bytes)
    } else if size < MIB {
        Ok(SizeUnit::Kilobytes)
    } else if size < GIB {
        Ok(SizeUnit::Megabytes)
    } else {
        Ok(SizeUnit::Gigabytes)
    }
}

} // verus!
