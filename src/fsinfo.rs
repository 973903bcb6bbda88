//! File, directory and volume information records returned to the server.
use crate::tdp::{spec_windows_time, to_windows_time, FileType};
use crate::wire::{push_u32, push_u64, push_u8, push_utf16, push_zeros, utf16le};
use vstd::bytes::*;
use vstd::prelude::*;

verus! {

pub const FILE_DIRECTORY_INFORMATION: u32 = 1;

pub const FILE_FULL_DIRECTORY_INFORMATION: u32 = 2;

pub const FILE_BOTH_DIRECTORY_INFORMATION: u32 = 3;

pub const FILE_BASIC_INFORMATION: u32 = 4;

pub const FILE_STANDARD_INFORMATION: u32 = 5;

pub const FILE_RENAME_INFORMATION: u32 = 10;

pub const FILE_NAMES_INFORMATION: u32 = 12;

pub const FILE_DISPOSITION_INFORMATION: u32 = 13;

pub const FILE_ALLOCATION_INFORMATION: u32 = 19;

pub const FILE_END_OF_FILE_INFORMATION: u32 = 20;

pub const FILE_ATTRIBUTE_TAG_INFORMATION: u32 = 35;

pub const FILE_FS_VOLUME_INFORMATION: u32 = 1;

pub const FILE_FS_SIZE_INFORMATION: u32 = 3;

pub const FILE_FS_DEVICE_INFORMATION: u32 = 4;

pub const FILE_FS_ATTRIBUTE_INFORMATION: u32 = 5;

pub const FILE_FS_FULL_SIZE_INFORMATION: u32 = 7;

pub const FILE_ATTRIBUTE_DIRECTORY: u32 = 0x10;

pub const FILE_ATTRIBUTE_NORMAL: u32 = 0x80;

pub const FILE_CASE_SENSITIVE_SEARCH: u32 = 0x1;

pub const FILE_CASE_PRESERVED_NAMES: u32 = 0x2;

pub const FILE_UNICODE_ON_DISK: u32 = 0x4;

/// One entry of a directory listing: what a directory record is made of.
#[derive(Clone, Debug)]
pub struct DirEntry {
    pub last_modified: u64,
    pub size: u64,
    pub file_type: FileType,
    pub name: Vec<u16>,
}

pub open spec fn spec_attributes(t: FileType) -> u32 {
    match t {
        FileType::Directory => FILE_ATTRIBUTE_DIRECTORY,
        FileType::File => FILE_ATTRIBUTE_NORMAL,
    }
}

pub fn attributes(t: FileType) -> (r: u32)
    ensures
        r == spec_attributes(t),
{
    match t {
        FileType::Directory => FILE_ATTRIBUTE_DIRECTORY,
        FileType::File => FILE_ATTRIBUTE_NORMAL,
    }
}

pub open spec fn le_i64(v: i64) -> Seq<u8> {
    spec_u64_to_le_bytes(v as u64)
}

/// The four timestamps of a record, all the same Windows time.
pub open spec fn spec_times(t: i64) -> Seq<u8> {
    le_i64(t) + le_i64(t) + le_i64(t) + le_i64(t)
}

/// The directory information levels that a directory query may ask for.
pub open spec fn is_dir_level(level: u32) -> bool {
    level == FILE_DIRECTORY_INFORMATION || level == FILE_FULL_DIRECTORY_INFORMATION || level
        == FILE_BOTH_DIRECTORY_INFORMATION || level == FILE_NAMES_INFORMATION
}

/// The fixed part of a directory record of each level.
pub open spec fn dir_record_base(level: u32) -> nat {
    if level == FILE_BOTH_DIRECTORY_INFORMATION {
        93
    } else if level == FILE_FULL_DIRECTORY_INFORMATION {
        68
    } else if level == FILE_DIRECTORY_INFORMATION {
        64
    } else {
        12
    }
}

/// A directory record: next entry offset and file index zero, four equal times,
/// end of file and allocation size equal to the size, the attributes of its type,
/// and the UTF-16LE name with no NUL.
pub open spec fn spec_dir_record(
    level: u32,
    last_modified: u64,
    size: u64,
    file_type: FileType,
    name: Seq<u16>,
) -> Seq<u8> {
    let t = spec_windows_time(last_modified);
    let name_len = spec_u32_to_le_bytes((2 * name.len()) as u32);
    let common = spec_u32_to_le_bytes(0) + spec_u32_to_le_bytes(0) + spec_times(t)
        + spec_u64_to_le_bytes(size) + spec_u64_to_le_bytes(size) + spec_u32_to_le_bytes(
        spec_attributes(file_type),
    ) + name_len;
    if level == FILE_BOTH_DIRECTORY_INFORMATION {
        common + spec_u32_to_le_bytes(0) + seq![0u8] + Seq::new(24, |_i: int| 0u8) + utf16le(name)
    } else if level == FILE_FULL_DIRECTORY_INFORMATION {
        common + spec_u32_to_le_bytes(0) + utf16le(name)
    } else if level == FILE_DIRECTORY_INFORMATION {
        common + utf16le(name)
    } else {
        spec_u32_to_le_bytes(0) + spec_u32_to_le_bytes(0) + name_len + utf16le(name)
    }
}

proof fn lemma_utf16le_len(units: Seq<u16>)
    ensures
        utf16le(units).len() == 2 * units.len(),
    decreases units.len(),
{
    lemma_auto_spec_u16_to_from_le_bytes();
    if units.len() > 0 {
        lemma_utf16le_len(units.drop_last());
    }
}

/// The length of a directory record: its level's fixed part plus the name.
pub proof fn lemma_dir_record_len(
    level: u32,
    last_modified: u64,
    size: u64,
    file_type: FileType,
    name: Seq<u16>,
)
    requires
        is_dir_level(level),
        2 * name.len() <= u32::MAX,
    ensures
        spec_dir_record(level, last_modified, size, file_type, name).len() == dir_record_base(level)
            + 2 * name.len(),
{
    lemma_auto_spec_u32_to_from_le_bytes();
    lemma_auto_spec_u64_to_from_le_bytes();
    lemma_utf16le_len(name);
}

/// Encodes the directory record of `entry` at a directory information level.
pub fn encode_dir_record(level: u32, entry: &DirEntry) -> (r: Vec<u8>)
    requires
        is_dir_level(level),
        2 * entry.name@.len() <= u32::MAX,
    ensures
        r@ == spec_dir_record(level, entry.last_modified, entry.size, entry.file_type, entry.name@),
        r@.len() == dir_record_base(level) + 2 * entry.name@.len(),
{
    let name_len: u32 = (2 * entry.name.len()) as u32;
    let mut w: Vec<u8> = Vec::new();
    if level == FILE_NAMES_INFORMATION {
        push_u32(&mut w, 0);
        push_u32(&mut w, 0);
        push_u32(&mut w, name_len);
        push_utf16(&mut w, &entry.name);
    } else {
        let t = to_windows_time(entry.last_modified);
        push_u32(&mut w, 0);
        push_u32(&mut w, 0);
        push_u64(&mut w, t as u64);
        push_u64(&mut w, t as u64);
        push_u64(&mut w, t as u64);
        push_u64(&mut w, t as u64);
        push_u64(&mut w, entry.size);
        push_u64(&mut w, entry.size);
        push_u32(&mut w, attributes(entry.file_type));
        push_u32(&mut w, name_len);
        if level == FILE_BOTH_DIRECTORY_INFORMATION {
            push_u32(&mut w, 0);
            push_u8(&mut w, 0);
            push_zeros(&mut w, 24);
        } else if level == FILE_FULL_DIRECTORY_INFORMATION {
            push_u32(&mut w, 0);
        }
        push_utf16(&mut w, &entry.name);
    }
    proof {
        assert(w@ =~= spec_dir_record(
            level,
            entry.last_modified,
            entry.size,
            entry.file_type,
            entry.name@,
        ));
        lemma_dir_record_len(level, entry.last_modified, entry.size, entry.file_type, entry.name@);
    }
    w
}

/// The UTF-16 code units of "TELEPORT".
pub open spec fn volume_label() -> Seq<u16> {
    seq![84u16, 69, 76, 69, 80, 79, 82, 84]
}

/// The UTF-16 code units of "FAT32".
pub open spec fn file_system_name() -> Seq<u16> {
    seq![70u16, 65, 84, 51, 50]
}

/// The volume records served for the five supported levels.
pub open spec fn is_volume_level(level: u32) -> bool {
    level == FILE_FS_VOLUME_INFORMATION || level == FILE_FS_SIZE_INFORMATION || level
        == FILE_FS_DEVICE_INFORMATION || level == FILE_FS_ATTRIBUTE_INFORMATION || level
        == FILE_FS_FULL_SIZE_INFORMATION
}

/// The volume record of a supported level, for a volume created at `created`.
pub open spec fn spec_volume_record(level: u32, created: i64) -> Seq<u8> {
    if level == FILE_FS_VOLUME_INFORMATION {
        le_i64(created) + spec_u32_to_le_bytes(0xffff) + spec_u32_to_le_bytes(18) + seq![0u8]
            + utf16le(volume_label().push(0))
    } else if level == FILE_FS_SIZE_INFORMATION {
        spec_u64_to_le_bytes(0xffff_ffff) + spec_u64_to_le_bytes(0xffff_ffff) + spec_u32_to_le_bytes(
            0xffff_ffff,
        ) + spec_u32_to_le_bytes(1)
    } else if level == FILE_FS_ATTRIBUTE_INFORMATION {
        spec_u32_to_le_bytes(
            FILE_CASE_SENSITIVE_SEARCH | FILE_CASE_PRESERVED_NAMES | FILE_UNICODE_ON_DISK,
        ) + spec_u32_to_le_bytes(260) + spec_u32_to_le_bytes(12) + utf16le(
            file_system_name().push(0),
        )
    } else if level == FILE_FS_FULL_SIZE_INFORMATION {
        spec_u64_to_le_bytes(0xffff_ffff) + spec_u64_to_le_bytes(0xffff_ffff)
            + spec_u64_to_le_bytes(0xffff_ffff) + spec_u32_to_le_bytes(0xffff_ffff)
            + spec_u32_to_le_bytes(1)
    } else {
        spec_u32_to_le_bytes(7) + spec_u32_to_le_bytes(0)
    }
}

/// Every volume record is at most 35 bytes long.
pub proof fn lemma_volume_record_len(level: u32, created: i64)
    ensures
        spec_volume_record(level, created).len() <= 35,
{
    lemma_auto_spec_u32_to_from_le_bytes();
    lemma_auto_spec_u64_to_from_le_bytes();
    lemma_utf16le_len(volume_label().push(0));
    lemma_utf16le_len(file_system_name().push(0));
}

/// Encodes the volume record of a supported level.
pub fn encode_volume_record(level: u32, created: i64) -> (r: Vec<u8>)
    requires
        is_volume_level(level),
    ensures
        r@ == spec_volume_record(level, created),
{
    let mut w: Vec<u8> = Vec::new();
    if level == FILE_FS_VOLUME_INFORMATION {
        let label: Vec<u16> = vec![84u16, 69, 76, 69, 80, 79, 82, 84, 0];
        push_u64(&mut w, created as u64);
        push_u32(&mut w, 0xffff);
        push_u32(&mut w, 18);
        push_u8(&mut w, 0);
        push_utf16(&mut w, &label);
        proof {
            assert(label@ =~= volume_label().push(0));
        }
    } else if level == FILE_FS_SIZE_INFORMATION {
        push_u64(&mut w, 0xffff_ffff);
        push_u64(&mut w, 0xffff_ffff);
        push_u32(&mut w, 0xffff_ffff);
        push_u32(&mut w, 1);
    } else if level == FILE_FS_ATTRIBUTE_INFORMATION {
        let name: Vec<u16> = vec![70u16, 65, 84, 51, 50, 0];
        push_u32(&mut w, FILE_CASE_SENSITIVE_SEARCH | FILE_CASE_PRESERVED_NAMES | FILE_UNICODE_ON_DISK);
        push_u32(&mut w, 260);
        push_u32(&mut w, 12);
        push_utf16(&mut w, &name);
        proof {
            assert(name@ =~= file_system_name().push(0));
        }
    } else if level == FILE_FS_FULL_SIZE_INFORMATION {
        push_u64(&mut w, 0xffff_ffff);
        push_u64(&mut w, 0xffff_ffff);
        push_u64(&mut w, 0xffff_ffff);
        push_u32(&mut w, 0xffff_ffff);
        push_u32(&mut w, 1);
    } else {
        push_u32(&mut w, 7);
        push_u32(&mut w, 0);
    }
    proof {
        assert(w@ =~= spec_volume_record(level, created));
    }
    w
}

/// The file information records served for a query on an open file.
pub open spec fn is_query_level(level: u32) -> bool {
    level == FILE_BASIC_INFORMATION || level == FILE_STANDARD_INFORMATION || level
        == FILE_ATTRIBUTE_TAG_INFORMATION
}

/// The record of a supported query level for an open file.
pub open spec fn spec_query_record(
    level: u32,
    last_modified: u64,
    size: u64,
    file_type: FileType,
    delete_pending: bool,
) -> Seq<u8> {
    if level == FILE_BASIC_INFORMATION {
        spec_times(spec_windows_time(last_modified)) + spec_u32_to_le_bytes(
            spec_attributes(file_type),
        )
    } else if level == FILE_STANDARD_INFORMATION {
        spec_u64_to_le_bytes(size) + spec_u64_to_le_bytes(size) + spec_u32_to_le_bytes(0) + seq![
            if delete_pending {
                1u8
            } else {
                0u8
            },
            if file_type == FileType::Directory {
                1u8
            } else {
                0u8
            },
        ]
    } else {
        spec_u32_to_le_bytes(spec_attributes(file_type)) + spec_u32_to_le_bytes(0)
    }
}

/// Encodes the record of a supported query level.
pub fn encode_query_record(
    level: u32,
    last_modified: u64,
    size: u64,
    file_type: FileType,
    delete_pending: bool,
) -> (r: Vec<u8>)
    requires
        is_query_level(level),
    ensures
        r@ == spec_query_record(level, last_modified, size, file_type, delete_pending),
{
    let mut w: Vec<u8> = Vec::new();
    if level == FILE_BASIC_INFORMATION {
        let t = to_windows_time(last_modified);
        push_u64(&mut w, t as u64);
        push_u64(&mut w, t as u64);
        push_u64(&mut w, t as u64);
        push_u64(&mut w, t as u64);
        push_u32(&mut w, attributes(file_type));
    } else if level == FILE_STANDARD_INFORMATION {
        push_u64(&mut w, size);
        push_u64(&mut w, size);
        push_u32(&mut w, 0);
        push_u8(&mut w, if delete_pending { 1 } else { 0 });
        push_u8(&mut w, if file_type == FileType::Directory { 1 } else { 0 });
    } else {
        push_u32(&mut w, attributes(file_type));
        push_u32(&mut w, 0);
    }
    proof {
        assert(w@ =~= spec_query_record(level, last_modified, size, file_type, delete_pending));
    }
    w
}

} // verus!
