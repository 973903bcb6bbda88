//! Records exchanged with the host-side file service, and the Windows time
//! that the drive client derives from the host's times.
use vstd::prelude::*;

verus! {

/// Whether a host object is a regular file or a directory.
#[derive(Clone, Copy, Debug, PartialEq, Eq, Structural)]
pub enum FileType {
    File,
    Directory,
}

/// The outcome that the host reports for a request.
#[derive(Clone, Copy, Debug, PartialEq, Eq, Structural)]
pub enum TdpErrCode {
    /// The operation succeeded.
    Nil,
    /// The operation failed.
    Failed,
    /// The resource does not exist.
    DoesNotExist,
    /// The resource already exists.
    AlreadyExists,
}

/// Metadata of a file or directory as the host reports it; `path` is a
/// `/`-separated path relative to the shared directory.
#[derive(Clone, Debug)]
pub struct FileSystemObject {
    pub last_modified: u64,
    pub size: u64,
    pub file_type: FileType,
    pub is_empty: bool,
    pub path: String,
}

/// Acknowledges the announcement of a shared directory.
#[derive(Clone, Copy, Debug, PartialEq, Eq, Structural)]
pub struct SharedDirectoryAcknowledge {
    pub err_code: TdpErrCode,
    pub directory_id: u32,
}

/// Asks the host for the metadata of the object at `path`.
#[derive(Clone, Debug)]
pub struct SharedDirectoryInfoRequest {
    pub completion_id: u32,
    pub directory_id: u32,
    pub path: String,
}

/// The host's answer to an info request.
#[derive(Clone, Debug)]
pub struct SharedDirectoryInfoResponse {
    pub completion_id: u32,
    pub err_code: TdpErrCode,
    pub fso: FileSystemObject,
}

/// Asks the host to create a file or directory at `path`.
#[derive(Clone, Debug)]
pub struct SharedDirectoryCreateRequest {
    pub completion_id: u32,
    pub directory_id: u32,
    pub file_type: FileType,
    pub path: String,
}

/// The host's answer to a create request, with the new object's metadata.
#[derive(Clone, Debug)]
pub struct SharedDirectoryCreateResponse {
    pub completion_id: u32,
    pub err_code: TdpErrCode,
    pub fso: FileSystemObject,
}

/// Asks the host to delete the object at `path`.
#[derive(Clone, Debug)]
pub struct SharedDirectoryDeleteRequest {
    pub completion_id: u32,
    pub directory_id: u32,
    pub path: String,
}

/// The host's answer to a delete request.
#[derive(Clone, Copy, Debug, PartialEq, Eq, Structural)]
pub struct SharedDirectoryDeleteResponse {
    pub completion_id: u32,
    pub err_code: TdpErrCode,
}

/// Asks the host for the contents of the directory at `path`.
#[derive(Clone, Debug)]
pub struct SharedDirectoryListRequest {
    pub completion_id: u32,
    pub directory_id: u32,
    pub path: String,
}

/// The host's answer to a list request: the directory's entries.
#[derive(Clone, Debug)]
pub struct SharedDirectoryListResponse {
    pub completion_id: u32,
    pub err_code: TdpErrCode,
    pub fso_list: Vec<FileSystemObject>,
}

/// Asks the host for `length` bytes of the file at `path`, from `offset`.
#[derive(Clone, Debug)]
pub struct SharedDirectoryReadRequest {
    pub completion_id: u32,
    pub directory_id: u32,
    pub path: String,
    pub offset: u64,
    pub length: u32,
}

/// The host's answer to a read request: the bytes read.
#[derive(Clone, Debug)]
pub struct SharedDirectoryReadResponse {
    pub completion_id: u32,
    pub err_code: TdpErrCode,
    pub read_data: Vec<u8>,
}

/// Asks the host to write `write_data` to the file at `path`, from `offset`.
#[derive(Clone, Debug)]
pub struct SharedDirectoryWriteRequest {
    pub completion_id: u32,
    pub directory_id: u32,
    pub offset: u64,
    pub path: String,
    pub write_data: Vec<u8>,
}

/// The host's answer to a write request: the count of bytes written.
#[derive(Clone, Copy, Debug, PartialEq, Eq, Structural)]
pub struct SharedDirectoryWriteResponse {
    pub completion_id: u32,
    pub err_code: TdpErrCode,
    pub bytes_written: u32,
}

/// Asks the host to move the object at `original_path` to `new_path`.
#[derive(Clone, Debug)]
pub struct SharedDirectoryMoveRequest {
    pub completion_id: u32,
    pub directory_id: u32,
    pub original_path: String,
    pub new_path: String,
}

/// The host's answer to a move request.
#[derive(Clone, Copy, Debug, PartialEq, Eq, Structural)]
pub struct SharedDirectoryMoveResponse {
    pub completion_id: u32,
    pub err_code: TdpErrCode,
}

/// A request for the host, or the acknowledgement of a shared directory.
#[derive(Clone, Debug)]
pub enum TdpRequest {
    Acknowledge(SharedDirectoryAcknowledge),
    Info(SharedDirectoryInfoRequest),
    Create(SharedDirectoryCreateRequest),
    Delete(SharedDirectoryDeleteRequest),
    List(SharedDirectoryListRequest),
    Read(SharedDirectoryReadRequest),
    Write(SharedDirectoryWriteRequest),
    Move(SharedDirectoryMoveRequest),
}

/// 100-nanosecond intervals from 1601-01-01 to 1970-01-01.
pub const WINDOWS_EPOCH_OFFSET: u64 = 116_444_736_000_000_000;

/// Windows file time of a host time in milliseconds since the Unix epoch:
/// whole seconds times 10^7 plus the epoch offset, computed modulo 2^64 and read
/// as a signed 64-bit value.
pub open spec fn spec_windows_time(tdp_time_ms: u64) -> i64 {
    (((tdp_time_ms / 1000) as int * 10_000_000 + WINDOWS_EPOCH_OFFSET as int) % 0x1_0000_0000_0000_0000int) as u64 as i64
}

pub fn to_windows_time(tdp_time_ms: u64) -> (r: i64)
    ensures
        r == spec_windows_time(tdp_time_ms),
{
    let secs = tdp_time_ms / 1000;
    let t = secs.wrapping_mul(10_000_000).wrapping_add(WINDOWS_EPOCH_OFFSET);
    proof {
        assert(t as int == ((secs as int * 10_000_000) % 0x1_0000_0000_0000_0000int + WINDOWS_EPOCH_OFFSET as int) % 0x1_0000_0000_0000_0000int);
        vstd::arithmetic::div_mod::lemma_add_mod_noop(secs as int * 10_000_000, WINDOWS_EPOCH_OFFSET as int, 0x1_0000_0000_0000_0000int);
        vstd::arithmetic::div_mod::lemma_mod_twice(WINDOWS_EPOCH_OFFSET as int, 0x1_0000_0000_0000_0000int);
    }
    t as i64
}

} // verus!
