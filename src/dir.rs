//! The drive (shared directory) client: serves drive IRPs from a file cache and
//! through requests to the host, matched to their responses by completion id.
use crate::error::{ErrorKind, RdpResult};
use crate::fsinfo::{
    encode_dir_record, encode_query_record, encode_volume_record, is_dir_level,
    is_query_level, is_volume_level, spec_dir_record, spec_query_record, spec_volume_record, DirEntry,
};
use crate::rdpdr::{
    encode_close_response, encode_create_response,
    encode_query_dir_response, encode_query_response, encode_query_volume_response,
    encode_read_response, encode_set_info_response, encode_write_response, io_response,
    spec_close_response, spec_create_response, spec_io_response, spec_query_dir_response,
    spec_query_response, spec_query_volume_response, spec_read_response, spec_set_info_response,
    spec_set_info_size, spec_write_response, DeviceControlRequest, DeviceCreateRequest,
    DeviceIoRequest, DeviceReadRequest, DeviceWriteRequest, ServerDeviceAnnounceResponse,
    ServerDriveQueryDirectoryRequest, ServerDriveSetInformationRequest, SetInformation,
    IRP_MN_NOTIFY_CHANGE_DIRECTORY, IRP_MN_QUERY_DIRECTORY, STATUS_DIRECTORY_NOT_EMPTY,
    STATUS_NOT_SUPPORTED, STATUS_NO_MORE_FILES, STATUS_UNSUCCESSFUL,
    FILE_CREATE, FILE_DIRECTORY_FILE, FILE_NON_DIRECTORY_FILE, FILE_OPEN, FILE_OPEN_IF,
    FILE_OVERWRITE, FILE_OVERWRITE_IF, FILE_SUPERSEDE, STATUS_ACCESS_DENIED, STATUS_NOT_A_DIRECTORY,
    STATUS_NO_SUCH_FILE, STATUS_OBJECT_NAME_COLLISION, STATUS_SUCCESS, FILE_OPENED, FILE_OVERWRITTEN,
    FILE_SUPERSEDED, spec_create_information,
};
use crate::tdp::{
    spec_windows_time, to_windows_time, FileSystemObject, FileType, SharedDirectoryAcknowledge,
    SharedDirectoryCreateRequest, SharedDirectoryCreateResponse, SharedDirectoryDeleteRequest,
    SharedDirectoryDeleteResponse, SharedDirectoryInfoRequest, SharedDirectoryInfoResponse,
    SharedDirectoryListRequest, SharedDirectoryListResponse, SharedDirectoryMoveRequest,
    SharedDirectoryMoveResponse, SharedDirectoryReadRequest, SharedDirectoryReadResponse,
    SharedDirectoryWriteRequest, SharedDirectoryWriteResponse, TdpErrCode, TdpRequest,
};
use std::collections::HashMap;
use vstd::prelude::*;

verus! {

/// The string that UTF-16 code units encode, each unpaired surrogate replaced.
pub uninterp spec fn utf16_string(units: Seq<u16>) -> Seq<char>;

/// The UTF-16 code units of a string.
pub uninterp spec fn string_utf16(s: Seq<char>) -> Seq<u16>;

/// Relies on `String::from_utf16_lossy`: the string that the code units
/// encode, which depends on the code units alone.
#[verifier::external_body]
fn string_from_utf16(units: &Vec<u16>) -> (r: String)
    ensures
        r@ == utf16_string(units@),
{
    String::from_utf16_lossy(units.as_slice())
}

/// Relies on `str::encode_utf16`: the UTF-16 code units of the string, which
/// depend on the string alone.
#[verifier::external_body]
fn utf16_of(s: &String) -> (r: Vec<u16>)
    ensures
        r@ == string_utf16(s@),
{
    s.as_str().encode_utf16().collect()
}

pub open spec fn slash_for_backslash(u: u16) -> u16 {
    if u == 0x5c {
        0x2f
    } else {
        u
    }
}

pub open spec fn strip_leading_slashes(s: Seq<u16>) -> Seq<u16>
    decreases s.len(),
{
    if s.len() > 0 && s[0] == 0x2f {
        strip_leading_slashes(s.drop_first())
    } else {
        s
    }
}

/// The host path of a Windows path, as code units: `\` becomes `/`, and the
/// path is made relative by dropping its leading separators.
pub open spec fn unix_path_units(w: Seq<u16>) -> Seq<u16> {
    strip_leading_slashes(w.map_values(|u: u16| slash_for_backslash(u)))
}

/// Converts a Windows path to the host's path form.
pub fn unix_path(w: &Vec<u16>) -> (r: String)
    ensures
        r@ == utf16_string(unix_path_units(w@)),
{
    let mut units: Vec<u16> = Vec::new();
    let mut i: usize = 0;
    while i < w.len()
        invariant
            i <= w@.len(),
            units@ == w@.subrange(0, i as int).map_values(|u: u16| slash_for_backslash(u)),
        decreases w@.len() - i,
    {
        let u = w[i];
        units.push(if u == 0x5c { 0x2f } else { u });
        proof {
            assert(units@ =~= w@.subrange(0, i + 1).map_values(|u: u16| slash_for_backslash(u)));
        }
        i = i + 1;
    }
    proof {
        assert(w@.subrange(0, w@.len() as int) =~= w@);
    }
    let mut start: usize = 0;
    proof {
        assert(units@.subrange(0, units@.len() as int) =~= units@);
    }
    while start < units.len() && units[start] == 0x2f
        invariant
            start <= units@.len(),
            strip_leading_slashes(units@) == strip_leading_slashes(units@.subrange(start as int, units@.len() as int)),
        decreases units@.len() - start,
    {
        proof {
            let s = units@.subrange(start as int, units@.len() as int);
            assert(s.drop_first() =~= units@.subrange(start + 1, units@.len() as int));
        }
        start = start + 1;
    }
    let mut stripped: Vec<u16> = Vec::new();
    let mut j: usize = start;
    while j < units.len()
        invariant
            start <= j <= units@.len(),
            stripped@ == units@.subrange(start as int, j as int),
        decreases units@.len() - j,
    {
        stripped.push(units[j]);
        proof {
            assert(stripped@ =~= units@.subrange(start as int, j + 1));
        }
        j = j + 1;
    }
    proof {
        let s = units@.subrange(start as int, units@.len() as int);
        assert(stripped@ =~= s);
        assert(!(s.len() > 0 && s[0] == 0x2f));
    }
    string_from_utf16(&stripped)
}

/// The last component of a `/`-separated path, as code units.
pub open spec fn last_component(u: Seq<u16>) -> Seq<u16>
    decreases u.len(),
{
    if u.len() == 0 || u.last() == 0x2f {
        Seq::empty()
    } else {
        last_component(u.drop_last()).push(u.last())
    }
}

/// The name of a host path: its last component.
pub fn path_name(path: &String) -> (r: Vec<u16>)
    ensures
        r@ == last_component(string_utf16(path@)),
{
    let units = utf16_of(path);
    let mut start: usize = units.len();
    proof {
        assert(units@.subrange(0, units@.len() as int) =~= units@);
        assert(last_component(units@) + units@.subrange(start as int, units@.len() as int)
            =~= last_component(units@));
    }
    while start > 0 && units[start - 1] != 0x2f
        invariant
            start <= units@.len(),
            last_component(string_utf16(path@)) == last_component(units@.subrange(0, start as int))
                + units@.subrange(start as int, units@.len() as int),
        decreases start,
    {
        proof {
            let s = units@.subrange(0, start as int);
            assert(s.drop_last() =~= units@.subrange(0, start - 1));
            assert(units@.subrange(start - 1, units@.len() as int) =~= seq![s.last()] + units@.subrange(
                start as int,
                units@.len() as int,
            ));
            assert(last_component(s) == last_component(s.drop_last()).push(s.last()));
            assert(last_component(s.drop_last()).push(s.last()) + units@.subrange(
                start as int,
                units@.len() as int,
            ) =~= last_component(s.drop_last()) + units@.subrange(start - 1, units@.len() as int));
        }
        start = start - 1;
    }
    proof {
        assert(last_component(units@.subrange(0, start as int)) =~= Seq::<u16>::empty());
        assert(units@.subrange(0, units@.len() as int) =~= units@);
    }
    let mut name: Vec<u16> = Vec::new();
    let mut j: usize = start;
    while j < units.len()
        invariant
            start <= j <= units@.len(),
            name@ == units@.subrange(start as int, j as int),
        decreases units@.len() - j,
    {
        name.push(units[j]);
        proof {
            assert(name@ =~= units@.subrange(start as int, j + 1));
        }
        j = j + 1;
    }
    proof {
        assert(Seq::<u16>::empty() + units@.subrange(start as int, units@.len() as int) =~= name@);
    }
    name
}

/// The model of a directory entry: time, size, type and name.
pub open spec fn entry_view(e: DirEntry) -> (u64, u64, FileType, Seq<u16>) {
    (e.last_modified, e.size, e.file_type, e.name@)
}

/// The entry that lists a host object under its own name.
pub open spec fn fso_entry(f: FileSystemObject) -> (u64, u64, FileType, Seq<u16>) {
    (f.last_modified, f.size, f.file_type, last_component(string_utf16(f.path@)))
}

/// The synthetic entry "." for an open directory.
pub open spec fn dot_entry(f: FileSystemObject) -> (u64, u64, FileType, Seq<u16>) {
    (f.last_modified, f.size, f.file_type, seq![0x2eu16])
}

/// The synthetic entry ".." for an open directory.
pub open spec fn dotdot_entry(f: FileSystemObject) -> (u64, u64, FileType, Seq<u16>) {
    (f.last_modified, 0, FileType::Directory, seq![0x2eu16, 0x2eu16])
}

/// The state of an open file or directory.
#[derive(Clone, Debug)]
pub struct FileCacheObject {
    pub path: String,
    pub delete_pending: bool,
    pub fso: FileSystemObject,
    pub contents: Vec<FileSystemObject>,
    pub contents_i: usize,
    pub dot_sent: bool,
    pub dotdot_sent: bool,
}

/// The listing cursor of an open directory.
pub struct ListingView {
    pub own: FileSystemObject,
    pub contents: Seq<FileSystemObject>,
    pub contents_i: nat,
    pub dot_sent: bool,
    pub dotdot_sent: bool,
}

pub open spec fn listing_view(f: FileCacheObject) -> ListingView {
    ListingView {
        own: f.fso,
        contents: f.contents@,
        contents_i: f.contents_i as nat,
        dot_sent: f.dot_sent,
        dotdot_sent: f.dotdot_sent,
    }
}

/// One step of a directory listing: ".", then "..", then each entry of the
/// contents in order, then nothing.
pub open spec fn listing_next(l: ListingView) -> (ListingView, Option<(u64, u64, FileType, Seq<u16>)>) {
    if !l.dot_sent {
        (ListingView { dot_sent: true, ..l }, Some(dot_entry(l.own)))
    } else if !l.dotdot_sent {
        (ListingView { dotdot_sent: true, ..l }, Some(dotdot_entry(l.own)))
    } else if l.contents_i < l.contents.len() {
        (
            ListingView { contents_i: l.contents_i + 1, ..l },
            Some(fso_entry(l.contents[l.contents_i as int])),
        )
    } else {
        (l, None)
    }
}

/// The listing after `k` steps.
pub open spec fn listing_after(l: ListingView, k: nat) -> ListingView
    decreases k,
{
    if k == 0 {
        l
    } else {
        listing_next(listing_after(l, (k - 1) as nat)).0
    }
}

proof fn lemma_listing_after(l: ListingView, k: nat)
    requires
        !l.dot_sent,
        !l.dotdot_sent,
        l.contents_i == 0,
        k >= 2,
        k - 2 <= l.contents.len(),
    ensures
        listing_after(l, k) == (ListingView {
            dot_sent: true,
            dotdot_sent: true,
            contents_i: (k - 2) as nat,
            ..l
        }),
    decreases k,
{
    if k > 2 {
        lemma_listing_after(l, (k - 1) as nat);
    } else {
        reveal_with_fuel(listing_after, 3);
    }
}

/// A directory listing whose contents hold `n` entries yields ".", "..", then
/// the `n` entries in order, then nothing.
pub proof fn lemma_directory_iteration(l: ListingView)
    requires
        !l.dot_sent,
        !l.dotdot_sent,
        l.contents_i == 0,
    ensures
        listing_next(listing_after(l, 0)).1 == Some(dot_entry(l.own)),
        listing_next(listing_after(l, 1)).1 == Some(dotdot_entry(l.own)),
        forall|k: nat|
            2 <= k < l.contents.len() + 2 ==> #[trigger] listing_next(listing_after(l, k)).1 == Some(
                fso_entry(l.contents[k - 2]),
            ),
        listing_next(listing_after(l, l.contents.len() + 2)).1 is None,
{
    reveal_with_fuel(listing_after, 2);
    assert forall|k: nat| 2 <= k < l.contents.len() + 2 implies #[trigger] listing_next(
        listing_after(l, k),
    ).1 == Some(fso_entry(l.contents[k - 2])) by {
        lemma_listing_after(l, k);
    }
    lemma_listing_after(l, l.contents.len() + 2);
}

impl FileCacheObject {
    pub fn new(path: String, fso: FileSystemObject) -> (r: FileCacheObject)
        ensures
            r.path == path,
            r.fso == fso,
            !r.delete_pending,
            r.contents@.len() == 0,
            r.contents_i == 0,
            !r.dot_sent,
            !r.dotdot_sent,
    {
        FileCacheObject {
            path,
            delete_pending: false,
            fso,
            contents: Vec::new(),
            contents_i: 0,
            dot_sent: false,
            dotdot_sent: false,
        }
    }

    /// The next entry of the listing, as `listing_next` states.
    pub fn next_entry(&mut self) -> (r: Option<DirEntry>)
        ensures
            listing_view(*final(self)) == listing_next(listing_view(*old(self))).0,
            match r {
                Some(e) => listing_next(listing_view(*old(self))).1 == Some(entry_view(e)),
                None => listing_next(listing_view(*old(self))).1 is None,
            },
            final(self).path == old(self).path,
            final(self).delete_pending == old(self).delete_pending,
    {
        if !self.dot_sent {
            self.dot_sent = true;
            let e = DirEntry {
                last_modified: self.fso.last_modified,
                size: self.fso.size,
                file_type: self.fso.file_type,
                name: vec![0x2eu16],
            };
            assert(e.name@ =~= seq![0x2eu16]);
            Some(e)
        } else if !self.dotdot_sent {
            self.dotdot_sent = true;
            let e = DirEntry {
                last_modified: self.fso.last_modified,
                size: 0,
                file_type: FileType::Directory,
                name: vec![0x2eu16, 0x2eu16],
            };
            assert(e.name@ =~= seq![0x2eu16, 0x2eu16]);
            Some(e)
        } else if self.contents_i < self.contents.len() {
            let i = self.contents_i;
            self.contents_i = i + 1;
            let f = &self.contents[i];
            Some(
                DirEntry {
                    last_modified: f.last_modified,
                    size: f.size,
                    file_type: f.file_type,
                    name: path_name(&f.path),
                },
            )
        } else {
            None
        }
    }
}

/// What a CREATE request leads to once the target has been probed.
#[derive(Clone, Copy, Debug, PartialEq, Eq, Structural)]
pub enum CreateAction {
    /// Reply at once with this status.
    Fail(u32),
    /// Open the existing object under a new file id.
    Open,
    /// Ask the host to create an object of this type.
    CreateNew(FileType),
    /// Ask the host to delete the object, then to create a regular file.
    Overwrite,
}

pub open spec fn has_option(options: u32, flag: u32) -> bool {
    options & flag != 0
}

/// The CREATE decision: the checks on the target's type first, then the rule
/// of the disposition.
pub open spec fn spec_create_action(
    disposition: u32,
    exists: bool,
    target: FileType,
    options: u32,
) -> CreateAction {
    if exists && target == FileType::Directory && disposition == FILE_CREATE {
        CreateAction::Fail(STATUS_OBJECT_NAME_COLLISION)
    } else if exists && target == FileType::Directory && has_option(options, FILE_NON_DIRECTORY_FILE) {
        CreateAction::Fail(STATUS_ACCESS_DENIED)
    } else if exists && target == FileType::File && has_option(options, FILE_DIRECTORY_FILE) {
        CreateAction::Fail(STATUS_NOT_A_DIRECTORY)
    } else if !exists && has_option(options, FILE_DIRECTORY_FILE) {
        if disposition == FILE_OPEN_IF || disposition == FILE_CREATE {
            CreateAction::CreateNew(FileType::Directory)
        } else {
            CreateAction::Fail(STATUS_NO_SUCH_FILE)
        }
    } else if disposition == FILE_SUPERSEDE || disposition == FILE_OVERWRITE_IF {
        if exists {
            CreateAction::Overwrite
        } else {
            CreateAction::CreateNew(FileType::File)
        }
    } else if disposition == FILE_OPEN {
        if exists {
            CreateAction::Open
        } else {
            CreateAction::Fail(STATUS_NO_SUCH_FILE)
        }
    } else if disposition == FILE_CREATE {
        if exists {
            CreateAction::Fail(STATUS_OBJECT_NAME_COLLISION)
        } else {
            CreateAction::CreateNew(FileType::File)
        }
    } else if disposition == FILE_OPEN_IF {
        if exists {
            CreateAction::Open
        } else {
            CreateAction::CreateNew(FileType::File)
        }
    } else {
        if exists {
            CreateAction::Overwrite
        } else {
            CreateAction::Fail(STATUS_NO_SUCH_FILE)
        }
    }
}

pub fn create_action(disposition: u32, exists: bool, target: FileType, options: u32) -> (r: CreateAction)
    ensures
        r == spec_create_action(disposition, exists, target, options),
{
    let is_dir = target == FileType::Directory;
    if exists && is_dir && disposition == FILE_CREATE {
        CreateAction::Fail(STATUS_OBJECT_NAME_COLLISION)
    } else if exists && is_dir && options & FILE_NON_DIRECTORY_FILE != 0 {
        CreateAction::Fail(STATUS_ACCESS_DENIED)
    } else if exists && !is_dir && options & FILE_DIRECTORY_FILE != 0 {
        CreateAction::Fail(STATUS_NOT_A_DIRECTORY)
    } else if !exists && options & FILE_DIRECTORY_FILE != 0 {
        if disposition == FILE_OPEN_IF || disposition == FILE_CREATE {
            CreateAction::CreateNew(FileType::Directory)
        } else {
            CreateAction::Fail(STATUS_NO_SUCH_FILE)
        }
    } else if disposition == FILE_SUPERSEDE || disposition == FILE_OVERWRITE_IF {
        if exists {
            CreateAction::Overwrite
        } else {
            CreateAction::CreateNew(FileType::File)
        }
    } else if disposition == FILE_OPEN {
        if exists {
            CreateAction::Open
        } else {
            CreateAction::Fail(STATUS_NO_SUCH_FILE)
        }
    } else if disposition == FILE_CREATE {
        if exists {
            CreateAction::Fail(STATUS_OBJECT_NAME_COLLISION)
        } else {
            CreateAction::CreateNew(FileType::File)
        }
    } else if disposition == FILE_OPEN_IF {
        if exists {
            CreateAction::Open
        } else {
            CreateAction::CreateNew(FileType::File)
        }
    } else {
        if exists {
            CreateAction::Overwrite
        } else {
            CreateAction::Fail(STATUS_NO_SUCH_FILE)
        }
    }
}

/// The CREATE matrix for a request with no directory or non-directory option:
/// per disposition, what an existing and a missing target lead to; and the
/// Information value of the reply: FILE_SUPERSEDED on any failure and for
/// SUPERSEDE, OPEN, CREATE and OVERWRITE, FILE_OPENED for OPEN_IF and
/// FILE_OVERWRITTEN for OVERWRITE_IF.
pub proof fn lemma_create_matrix(target: FileType, options: u32, status: u32)
    requires
        !has_option(options, FILE_DIRECTORY_FILE),
        !has_option(options, FILE_NON_DIRECTORY_FILE),
    ensures
        spec_create_action(FILE_SUPERSEDE, true, target, options) == CreateAction::Overwrite,
        spec_create_action(FILE_SUPERSEDE, false, target, options) == CreateAction::CreateNew(FileType::File),
        spec_create_action(FILE_OPEN, true, target, options) == CreateAction::Open,
        spec_create_action(FILE_OPEN, false, target, options) == CreateAction::Fail(STATUS_NO_SUCH_FILE),
        spec_create_action(FILE_CREATE, true, target, options) == CreateAction::Fail(
            STATUS_OBJECT_NAME_COLLISION,
        ),
        spec_create_action(FILE_CREATE, false, target, options) == CreateAction::CreateNew(FileType::File),
        spec_create_action(FILE_OPEN_IF, true, target, options) == CreateAction::Open,
        spec_create_action(FILE_OPEN_IF, false, target, options) == CreateAction::CreateNew(FileType::File),
        spec_create_action(FILE_OVERWRITE, true, target, options) == CreateAction::Overwrite,
        spec_create_action(FILE_OVERWRITE, false, target, options) == CreateAction::Fail(
            STATUS_NO_SUCH_FILE,
        ),
        spec_create_action(FILE_OVERWRITE_IF, true, target, options) == CreateAction::Overwrite,
        spec_create_action(FILE_OVERWRITE_IF, false, target, options) == CreateAction::CreateNew(
            FileType::File,
        ),
        status != STATUS_SUCCESS ==> forall|d: u32| #[trigger] spec_create_information(d, status) == FILE_SUPERSEDED,
        spec_create_information(FILE_SUPERSEDE, STATUS_SUCCESS) == FILE_SUPERSEDED,
        spec_create_information(FILE_OPEN, STATUS_SUCCESS) == FILE_SUPERSEDED,
        spec_create_information(FILE_CREATE, STATUS_SUCCESS) == FILE_SUPERSEDED,
        spec_create_information(FILE_OVERWRITE, STATUS_SUCCESS) == FILE_SUPERSEDED,
        spec_create_information(FILE_OPEN_IF, STATUS_SUCCESS) == FILE_OPENED,
        spec_create_information(FILE_OVERWRITE_IF, STATUS_SUCCESS) == FILE_OVERWRITTEN,
{
}

/// The orthogonal checks of the CREATE matrix: a directory target refuses
/// FILE_CREATE and the non-directory option, a file target refuses the
/// directory option, and a missing target with the directory option becomes a
/// new directory under OPEN_IF and CREATE and is missing otherwise.
pub proof fn lemma_create_type_checks(disposition: u32, options: u32)
    requires
        disposition <= FILE_OVERWRITE_IF,
    ensures
        spec_create_action(FILE_CREATE, true, FileType::Directory, options) == CreateAction::Fail(
            STATUS_OBJECT_NAME_COLLISION,
        ),
        has_option(options, FILE_NON_DIRECTORY_FILE) && disposition != FILE_CREATE
            ==> spec_create_action(disposition, true, FileType::Directory, options)
            == CreateAction::Fail(STATUS_ACCESS_DENIED),
        has_option(options, FILE_DIRECTORY_FILE) ==> spec_create_action(
            disposition,
            true,
            FileType::File,
            options,
        ) == CreateAction::Fail(STATUS_NOT_A_DIRECTORY),
        has_option(options, FILE_DIRECTORY_FILE) ==> spec_create_action(
            disposition,
            false,
            FileType::File,
            options,
        ) == if disposition == FILE_OPEN_IF || disposition == FILE_CREATE {
            CreateAction::CreateNew(FileType::Directory)
        } else {
            CreateAction::Fail(STATUS_NO_SUCH_FILE)
        },
{
}

broadcast use vstd::std_specs::hash::group_hash_axioms;

/// A probe that waits for an info response.
#[derive(Clone, Debug)]
pub enum PendingInfo {
    /// A CREATE waiting to learn whether its target exists.
    Create(DeviceCreateRequest),
    /// A rename that may not replace, waiting to learn whether its destination exists.
    Rename { req: ServerDriveSetInformationRequest, new_path: String, io_status: u32 },
}

/// A deletion that waits for its delete response.
#[derive(Clone, Debug)]
pub enum PendingDelete {
    /// The deletion that precedes re-creating an overwritten file.
    Overwrite(DeviceCreateRequest),
    /// The deletion of a file closed with a delete pending.
    Close(DeviceIoRequest),
}

/// A move that waits for its move response, and the status it then reports.
#[derive(Clone, Debug)]
pub struct PendingMove {
    pub req: ServerDriveSetInformationRequest,
    /// The host path the file moves to.
    pub new_path: String,
    pub io_status: u32,
}

/// What handling one IRP or one host response produces: at most one reply to
/// the server (a device I/O completion body) and at most one request for the host.
pub struct DriveOutput {
    pub reply: Option<Vec<u8>>,
    pub tdp: Option<TdpRequest>,
}

/// The output is exactly this reply, with no host request.
pub open spec fn replies(o: DriveOutput, bytes: Seq<u8>) -> bool {
    &&& o.reply matches Some(v) && v@ == bytes
    &&& o.tdp is None
}

/// The output is nothing at all.
pub open spec fn silent(o: DriveOutput) -> bool {
    o.reply is None && o.tdp is None
}

fn reply_with(bytes: Vec<u8>) -> (r: DriveOutput)
    ensures
        replies(r, bytes@),
{
    DriveOutput { reply: Some(bytes), tdp: None }
}

fn request(tdp: TdpRequest) -> (r: DriveOutput)
    ensures
        r.reply is None,
        r.tdp == Some(tdp),
{
    DriveOutput { reply: None, tdp: Some(tdp) }
}

/// The file id that follows `n`: ids wrap around and skip zero.
pub open spec fn spec_next_file_id(n: u32) -> u32 {
    if n == u32::MAX {
        1
    } else {
        (n + 1) as u32
    }
}

/// The status a SET_INFORMATION reports on success: a non-empty directory
/// reports DIRECTORY_NOT_EMPTY.
pub open spec fn spec_set_info_status(f: FileSystemObject) -> u32 {
    if f.file_type == FileType::Directory && !f.is_empty {
        STATUS_DIRECTORY_NOT_EMPTY
    } else {
        STATUS_SUCCESS
    }
}

/// Longest name, in code units, that a directory record may carry.
pub const MAX_NAME_UNITS: usize = 0x7fff_ff00;

/// The reply to a directory query once the listing has stepped: the record of
/// the next entry, or NO_MORE_FILES.
pub open spec fn spec_listing_reply(
    io: DeviceIoRequest,
    level: u32,
    next: Option<(u64, u64, FileType, Seq<u16>)>,
) -> Seq<u8> {
    match next {
        Some(e) => spec_query_dir_response(
            io,
            STATUS_SUCCESS,
            spec_dir_record(level, e.0, e.1, e.2, e.3),
        ),
        None => spec_query_dir_response(io, STATUS_NO_MORE_FILES, Seq::empty()),
    }
}

/// One step of the listing of the open file `io.file_id`, which stood as `base`:
/// its cursor advances as `listing_next` states, its path and pending deletion
/// stay, the rest of the cache stays as in `pre`; the reply carries the step's
/// record, and the only failure is a name too long for a record.
pub open spec fn listing_step(
    pre: Client,
    post: Client,
    base: FileCacheObject,
    io: DeviceIoRequest,
    level: u32,
    r: RdpResult<DriveOutput>,
) -> bool {
    let (l, next) = listing_next(listing_view(base));
    &&& post.cache().contains_key(io.file_id)
    &&& listing_view(post.cache()[io.file_id]) == l
    &&& post.cache()[io.file_id].path == base.path
    &&& post.cache()[io.file_id].delete_pending == base.delete_pending
    &&& post.cache() == pre.cache().insert(io.file_id, post.cache()[io.file_id])
    &&& match r {
        Ok(o) => replies(o, spec_listing_reply(io, level, next)) && (next matches Some(x) ==> x.3.len()
            <= MAX_NAME_UNITS),
        Err(e) => e == ErrorKind::InvalidData && (next matches Some(x) && x.3.len() > MAX_NAME_UNITS),
    }
}

/// A newly opened file: at `path`, with the host's metadata, no pending
/// deletion, no contents yet and its listing not started.
pub open spec fn is_fresh_open(f: FileCacheObject, path: Seq<char>, fso: FileSystemObject) -> bool {
    &&& f.path@ == path
    &&& f.fso == fso
    &&& !f.delete_pending
    &&& f.contents@.len() == 0
    &&& f.contents_i == 0
    &&& !f.dot_sent
    &&& !f.dotdot_sent
}

/// A listing reply fits a channel message whenever its name fits a record.
pub proof fn lemma_listing_reply_len(
    io: DeviceIoRequest,
    level: u32,
    next: Option<(u64, u64, FileType, Seq<u16>)>,
)
    requires
        is_dir_level(level),
        next matches Some(x) ==> x.3.len() <= MAX_NAME_UNITS,
    ensures
        spec_listing_reply(io, level, next).len() + 4 <= u32::MAX,
{
    vstd::bytes::lemma_auto_spec_u32_to_from_le_bytes();
    if let Some(x) = next {
        crate::fsinfo::lemma_dir_record_len(level, x.0, x.1, x.2, x.3);
    }
}

/// The drive client.
pub struct Client {
    allow_directory_sharing: bool,
    file_cache: HashMap<u32, FileCacheObject>,
    next_file_id: u32,
    pending_info: HashMap<u32, PendingInfo>,
    pending_create: HashMap<u32, DeviceCreateRequest>,
    pending_delete: HashMap<u32, PendingDelete>,
    pending_list: HashMap<u32, ServerDriveQueryDirectoryRequest>,
    pending_read: HashMap<u32, DeviceIoRequest>,
    pending_write: HashMap<u32, DeviceIoRequest>,
    pending_move: HashMap<u32, PendingMove>,
}

impl Client {
    pub closed spec fn sharing_allowed(&self) -> bool {
        self.allow_directory_sharing
    }

    /// Whether drive IRPs may be served.
    pub fn allow_directory_sharing(&self) -> (r: bool)
        ensures
            r == self.sharing_allowed(),
    {
        self.allow_directory_sharing
    }

    pub closed spec fn cache(&self) -> Map<u32, FileCacheObject> {
        self.file_cache@
    }

    pub closed spec fn last_file_id(&self) -> u32 {
        self.next_file_id
    }

    pub closed spec fn info_table(&self) -> Map<u32, PendingInfo> {
        self.pending_info@
    }

    pub closed spec fn create_table(&self) -> Map<u32, DeviceCreateRequest> {
        self.pending_create@
    }

    pub closed spec fn delete_table(&self) -> Map<u32, PendingDelete> {
        self.pending_delete@
    }

    pub closed spec fn list_table(&self) -> Map<u32, ServerDriveQueryDirectoryRequest> {
        self.pending_list@
    }

    pub closed spec fn read_table(&self) -> Map<u32, DeviceIoRequest> {
        self.pending_read@
    }

    pub closed spec fn write_table(&self) -> Map<u32, DeviceIoRequest> {
        self.pending_write@
    }

    pub closed spec fn move_table(&self) -> Map<u32, PendingMove> {
        self.pending_move@
    }

    /// The whole state stays as it was.
    pub open spec fn unchanged(&self, other: &Client) -> bool {
        &&& self.sharing_allowed() == other.sharing_allowed()
        &&& self.cache() == other.cache()
        &&& self.last_file_id() == other.last_file_id()
        &&& self.info_table() == other.info_table()
        &&& self.create_table() == other.create_table()
        &&& self.delete_table() == other.delete_table()
        &&& self.list_table() == other.list_table()
        &&& self.read_table() == other.read_table()
        &&& self.write_table() == other.write_table()
        &&& self.move_table() == other.move_table()
    }

    pub fn new(allow_directory_sharing: bool) -> (r: Client)
        ensures
            r.sharing_allowed() == allow_directory_sharing,
            r.cache() == Map::<u32, FileCacheObject>::empty(),
            r.last_file_id() == 0,
            r.info_table() == Map::<u32, PendingInfo>::empty(),
            r.create_table() == Map::<u32, DeviceCreateRequest>::empty(),
            r.delete_table() == Map::<u32, PendingDelete>::empty(),
            r.list_table() == Map::<u32, ServerDriveQueryDirectoryRequest>::empty(),
            r.read_table() == Map::<u32, DeviceIoRequest>::empty(),
            r.write_table() == Map::<u32, DeviceIoRequest>::empty(),
            r.move_table() == Map::<u32, PendingMove>::empty(),
    {
        Client {
            allow_directory_sharing,
            file_cache: HashMap::new(),
            next_file_id: 0,
            pending_info: HashMap::new(),
            pending_create: HashMap::new(),
            pending_delete: HashMap::new(),
            pending_list: HashMap::new(),
            pending_read: HashMap::new(),
            pending_write: HashMap::new(),
            pending_move: HashMap::new(),
        }
    }

    /// The open file or directory under `file_id`, if any.
    pub fn file(&self, file_id: u32) -> (r: Option<&FileCacheObject>)
        ensures
            match r {
                Some(f) => self.cache().contains_key(file_id) && *f == self.cache()[file_id],
                None => !self.cache().contains_key(file_id),
            },
    {
        self.file_cache.get(&file_id)
    }

    fn generate_file_id(&mut self) -> (r: u32)
        ensures
            r == spec_next_file_id(old(self).last_file_id()),
            final(self).last_file_id() == r,
            r != 0,
            final(self).file_cache == old(self).file_cache,
            final(self).pending_info == old(self).pending_info,
            final(self).pending_create == old(self).pending_create,
            final(self).pending_delete == old(self).pending_delete,
            final(self).pending_list == old(self).pending_list,
            final(self).pending_read == old(self).pending_read,
            final(self).pending_write == old(self).pending_write,
            final(self).pending_move == old(self).pending_move,
            final(self).sharing_allowed() == old(self).sharing_allowed(),
    {
        self.next_file_id = if self.next_file_id == u32::MAX {
            1
        } else {
            self.next_file_id + 1
        };
        self.next_file_id
    }

    /// Reports the result of announcing a shared directory to the host.
    pub fn handle_device_reply(&mut self, res: ServerDeviceAnnounceResponse) -> (r: DriveOutput)
        ensures
            r.reply is None,
            r.tdp == Some(
                TdpRequest::Acknowledge(
                    SharedDirectoryAcknowledge {
                        err_code: if res.result_code == STATUS_SUCCESS {
                            TdpErrCode::Nil
                        } else {
                            TdpErrCode::Failed
                        },
                        directory_id: res.device_id,
                    },
                ),
            ),
            final(self).unchanged(old(self)),
    {
        let err_code = if res.result_code == STATUS_SUCCESS {
            TdpErrCode::Nil
        } else {
            TdpErrCode::Failed
        };
        request(TdpRequest::Acknowledge(SharedDirectoryAcknowledge { err_code, directory_id: res.device_id }))
    }

    /// A drive IOCTL: succeeds with empty output.
    pub fn process_irp_device_control(&self, ioctl: &DeviceControlRequest) -> (r: DriveOutput)
        ensures
            replies(r, spec_io_response(ioctl.header, STATUS_SUCCESS) + vstd::bytes::spec_u32_to_le_bytes(0)),
    {
        let mut w = io_response(&ioctl.header, STATUS_SUCCESS);
        crate::wire::push_u32(&mut w, 0);
        reply_with(w)
    }

    /// A CREATE: asks the host whether the target exists, and waits.
    pub fn process_irp_create(&mut self, req: DeviceCreateRequest) -> (r: DriveOutput)
        ensures
            r.reply is None,
            r.tdp matches Some(TdpRequest::Info(i)) && i.completion_id
                == req.device_io_request.completion_id && i.directory_id
                == req.device_io_request.device_id && i.path@ == utf16_string(
                unix_path_units(req.path@),
            ),
            final(self).info_table() == old(self).info_table().insert(
                req.device_io_request.completion_id,
                PendingInfo::Create(req),
            ),
            final(self).cache() == old(self).cache(),
            final(self).last_file_id() == old(self).last_file_id(),
            final(self).create_table() == old(self).create_table(),
            final(self).delete_table() == old(self).delete_table(),
            final(self).list_table() == old(self).list_table(),
            final(self).read_table() == old(self).read_table(),
            final(self).write_table() == old(self).write_table(),
            final(self).move_table() == old(self).move_table(),
            final(self).sharing_allowed() == old(self).sharing_allowed(),
    {
        let path = unix_path(&req.path);
        let cid = req.device_io_request.completion_id;
        let info = SharedDirectoryInfoRequest {
            completion_id: cid,
            directory_id: req.device_io_request.device_id,
            path,
        };
        self.pending_info.insert(cid, PendingInfo::Create(req));
        request(TdpRequest::Info(info))
    }

    /// A CLOSE: forgets the file; with a delete pending, asks the host to delete it first.
    pub fn process_irp_close(&mut self, io: DeviceIoRequest) -> (r: DriveOutput)
        ensures
            final(self).cache() == old(self).cache().remove(io.file_id),
            !old(self).cache().contains_key(io.file_id) ==> replies(
                r,
                spec_close_response(io, STATUS_UNSUCCESSFUL),
            ) && final(self).delete_table() == old(self).delete_table(),
            old(self).cache().contains_key(io.file_id) && !old(self).cache()[io.file_id].delete_pending
                ==> replies(r, spec_close_response(io, STATUS_SUCCESS)) && final(self).delete_table()
                == old(self).delete_table(),
            old(self).cache().contains_key(io.file_id) && old(self).cache()[io.file_id].delete_pending
                ==> r.reply is None && (r.tdp matches Some(TdpRequest::Delete(d)) && d.completion_id
                == io.completion_id && d.directory_id == io.device_id && d.path == old(
                self,
            ).cache()[io.file_id].path) && final(self).delete_table() == old(self).delete_table().insert(
                io.completion_id,
                PendingDelete::Close(io),
            ),
            final(self).last_file_id() == old(self).last_file_id(),
            final(self).info_table() == old(self).info_table(),
            final(self).create_table() == old(self).create_table(),
            final(self).list_table() == old(self).list_table(),
            final(self).read_table() == old(self).read_table(),
            final(self).write_table() == old(self).write_table(),
            final(self).move_table() == old(self).move_table(),
            final(self).sharing_allowed() == old(self).sharing_allowed(),
    {
        match self.file_cache.remove(&io.file_id) {
            Some(file) => {
                if file.delete_pending {
                    self.pending_delete.insert(io.completion_id, PendingDelete::Close(io));
                    request(
                        TdpRequest::Delete(
                            SharedDirectoryDeleteRequest {
                                completion_id: io.completion_id,
                                directory_id: io.device_id,
                                path: file.path,
                            },
                        ),
                    )
                } else {
                    reply_with(encode_close_response(&io, STATUS_SUCCESS))
                }
            },
            None => reply_with(encode_close_response(&io, STATUS_UNSUCCESSFUL)),
        }
    }

    /// A QUERY_INFORMATION, served from the cache; a level other than basic,
    /// standard and attribute tag is not supported.
    pub fn process_irp_query_information(&self, io: DeviceIoRequest, level: u32) -> (r: RdpResult<DriveOutput>)
        ensures
            !self.cache().contains_key(io.file_id) ==> (r matches Ok(o) && replies(
                o,
                spec_query_response(io, STATUS_UNSUCCESSFUL, Seq::empty()),
            )),
            self.cache().contains_key(io.file_id) && !is_query_level(level) ==> (r matches Ok(o) && replies(
                o,
                spec_query_response(io, STATUS_NOT_SUPPORTED, Seq::empty()),
            )),
            self.cache().contains_key(io.file_id) && is_query_level(level) ==> ({
                let f = self.cache()[io.file_id];
                r matches Ok(o) && replies(
                    o,
                    spec_query_response(
                        io,
                        STATUS_SUCCESS,
                        spec_query_record(
                            level,
                            f.fso.last_modified,
                            f.fso.size,
                            f.fso.file_type,
                            f.delete_pending,
                        ),
                    ),
                )
            }),
    {
        match self.file_cache.get(&io.file_id) {
            None => {
                let empty: Vec<u8> = Vec::new();
                Ok(reply_with(encode_query_response(&io, STATUS_UNSUCCESSFUL, &empty)))
            },
            Some(f) => {
                if !(level == crate::fsinfo::FILE_BASIC_INFORMATION || level
                    == crate::fsinfo::FILE_STANDARD_INFORMATION || level
                    == crate::fsinfo::FILE_ATTRIBUTE_TAG_INFORMATION) {
                    let empty: Vec<u8> = Vec::new();
                    return Ok(reply_with(encode_query_response(&io, STATUS_NOT_SUPPORTED, &empty)));
                }
                let record = encode_query_record(
                    level,
                    f.fso.last_modified,
                    f.fso.size,
                    f.fso.file_type,
                    f.delete_pending,
                );
                proof {
                    vstd::bytes::lemma_auto_spec_u32_to_from_le_bytes();
                    vstd::bytes::lemma_auto_spec_u64_to_from_le_bytes();
                }
                Ok(reply_with(encode_query_response(&io, STATUS_SUCCESS, &record)))
            },
        }
    }

    /// Steps the listing of an open directory and replies with the next record.
    fn next_listing_reply(&mut self, io: DeviceIoRequest, level: u32) -> (r: RdpResult<DriveOutput>)
        requires
            is_dir_level(level),
        ensures
            !old(self).cache().contains_key(io.file_id) ==> (r matches Ok(o) && replies(
                o,
                spec_query_dir_response(io, STATUS_UNSUCCESSFUL, Seq::empty()),
            )) && final(self).cache() == old(self).cache(),
            old(self).cache().contains_key(io.file_id) ==> listing_step(
                *old(self),
                *final(self),
                old(self).cache()[io.file_id],
                io,
                level,
                r,
            ),
            final(self).last_file_id() == old(self).last_file_id(),
            final(self).info_table() == old(self).info_table(),
            final(self).create_table() == old(self).create_table(),
            final(self).delete_table() == old(self).delete_table(),
            final(self).list_table() == old(self).list_table(),
            final(self).read_table() == old(self).read_table(),
            final(self).write_table() == old(self).write_table(),
            final(self).move_table() == old(self).move_table(),
            final(self).sharing_allowed() == old(self).sharing_allowed(),
    {
        match self.file_cache.remove(&io.file_id) {
            None => {
                let empty: Vec<u8> = Vec::new();
                Ok(reply_with(encode_query_dir_response(&io, STATUS_UNSUCCESSFUL, &empty)))
            },
            Some(mut f) => {
                let next = f.next_entry();
                self.file_cache.insert(io.file_id, f);
                proof {
                    assert(self.file_cache@ =~= old(self).file_cache@.insert(io.file_id, f));
                }
                match next {
                    Some(e) => {
                        if e.name.len() > MAX_NAME_UNITS {
                            return Err(ErrorKind::InvalidData);
                        }
                        let record = encode_dir_record(level, &e);
                        Ok(reply_with(encode_query_dir_response(&io, STATUS_SUCCESS, &record)))
                    },
                    None => {
                        let empty: Vec<u8> = Vec::new();
                        Ok(reply_with(encode_query_dir_response(&io, STATUS_NO_MORE_FILES, &empty)))
                    },
                }
            },
        }
    }
}

impl Client {
    /// The file cache, the id generator and the sharing flag stay as they were.
    pub open spec fn same_files(&self, other: &Client) -> bool {
        &&& self.sharing_allowed() == other.sharing_allowed()
        &&& self.cache() == other.cache()
        &&& self.last_file_id() == other.last_file_id()
    }

    /// The id generator and the sharing flag stay as they were.
    pub open spec fn same_files_but_cache(&self, other: &Client) -> bool {
        &&& self.sharing_allowed() == other.sharing_allowed()
        &&& self.last_file_id() == other.last_file_id()
    }

    /// The tables other than the info and move tables stay as they were.
    pub open spec fn same_io_tables(&self, other: &Client) -> bool {
        &&& self.create_table() == other.create_table()
        &&& self.delete_table() == other.delete_table()
        &&& self.list_table() == other.list_table()
        &&& self.read_table() == other.read_table()
        &&& self.write_table() == other.write_table()
    }

    /// A directory control IRP: a directory query is served from the listing,
    /// after asking the host for the contents on the initial query; a change
    /// notification is ignored; any other minor function is not supported.
    pub fn process_irp_directory_control(&mut self, req: ServerDriveQueryDirectoryRequest) -> (r: RdpResult<DriveOutput>)
        requires
            is_dir_level(req.file_info_class_lvl),
        ensures
            ({
                let io = req.device_io_request;
                let cid = io.completion_id;
                if io.minor_function == IRP_MN_NOTIFY_CHANGE_DIRECTORY {
                    (r matches Ok(o) && silent(o)) && final(self).unchanged(old(self))
                } else if io.minor_function != IRP_MN_QUERY_DIRECTORY {
                    (r matches Ok(o) && replies(o, spec_query_dir_response(io, STATUS_NOT_SUPPORTED, Seq::empty())))
                        && final(self).unchanged(old(self))
                } else if !old(self).cache().contains_key(io.file_id) {
                    (r matches Ok(o) && replies(o, spec_query_dir_response(io, STATUS_UNSUCCESSFUL, Seq::empty())))
                        && final(self).unchanged(old(self))
                } else if old(self).cache()[io.file_id].fso.file_type != FileType::Directory {
                    r == Err::<DriveOutput, ErrorKind>(ErrorKind::Protocol) && final(self).unchanged(old(self))
                } else if req.initial_query != 0 {
                    &&& r matches Ok(o) && o.reply is None && (o.tdp matches Some(TdpRequest::List(l))
                        && l.completion_id == cid && l.directory_id == io.device_id && l.path
                        == old(self).cache()[io.file_id].path)
                    &&& final(self).list_table() == old(self).list_table().insert(cid, req)
                    &&& final(self).same_files(old(self))
                    &&& final(self).info_table() == old(self).info_table()
                    &&& final(self).move_table() == old(self).move_table()
                    &&& final(self).create_table() == old(self).create_table()
                    &&& final(self).delete_table() == old(self).delete_table()
                    &&& final(self).read_table() == old(self).read_table()
                    &&& final(self).write_table() == old(self).write_table()
                } else {
                    &&& listing_step(
                        *old(self),
                        *final(self),
                        old(self).cache()[io.file_id],
                        io,
                        req.file_info_class_lvl,
                        r,
                    )
                    &&& final(self).same_io_tables(old(self))
                    &&& final(self).info_table() == old(self).info_table()
                    &&& final(self).move_table() == old(self).move_table()
                    &&& final(self).last_file_id() == old(self).last_file_id()
                    &&& final(self).sharing_allowed() == old(self).sharing_allowed()
                }
            }),
    {
        let io = req.device_io_request;
        if io.minor_function == IRP_MN_NOTIFY_CHANGE_DIRECTORY {
            return Ok(DriveOutput { reply: None, tdp: None });
        }
        if io.minor_function != IRP_MN_QUERY_DIRECTORY {
            let empty: Vec<u8> = Vec::new();
            return Ok(reply_with(encode_query_dir_response(&io, STATUS_NOT_SUPPORTED, &empty)));
        }
        let path = match self.file_cache.get(&io.file_id) {
            None => {
                let empty: Vec<u8> = Vec::new();
                return Ok(reply_with(encode_query_dir_response(&io, STATUS_UNSUCCESSFUL, &empty)));
            },
            Some(dir) => {
                if dir.fso.file_type != FileType::Directory {
                    return Err(ErrorKind::Protocol);
                }
                dir.path.clone()
            },
        };
        if req.initial_query == 0 {
            return self.next_listing_reply(io, req.file_info_class_lvl);
        }
        let cid = io.completion_id;
        let list = SharedDirectoryListRequest { completion_id: cid, directory_id: io.device_id, path };
        self.pending_list.insert(cid, req);
        Ok(request(TdpRequest::List(list)))
    }
}

impl Client {
    /// A volume query on an open file: one of the five supported records, or
    /// UNSUCCESSFUL for any other level.
    pub fn process_irp_query_volume_information(&self, io: DeviceIoRequest, level: u32) -> (r: RdpResult<DriveOutput>)
        ensures
            !self.cache().contains_key(io.file_id) ==> r == Err::<DriveOutput, ErrorKind>(ErrorKind::InvalidData),
            self.cache().contains_key(io.file_id) && is_volume_level(level) ==> (r matches Ok(o) && replies(
                o,
                spec_query_volume_response(
                    io,
                    STATUS_SUCCESS,
                    spec_volume_record(level, spec_windows_time(self.cache()[io.file_id].fso.last_modified)),
                ),
            )),
            self.cache().contains_key(io.file_id) && !is_volume_level(level) ==> (r matches Ok(o) && replies(
                o,
                spec_query_volume_response(io, STATUS_UNSUCCESSFUL, Seq::empty()),
            )),
    {
        match self.file_cache.get(&io.file_id) {
            None => Err(ErrorKind::InvalidData),
            Some(dir) => {
                if level == crate::fsinfo::FILE_FS_VOLUME_INFORMATION || level
                    == crate::fsinfo::FILE_FS_SIZE_INFORMATION || level
                    == crate::fsinfo::FILE_FS_DEVICE_INFORMATION || level
                    == crate::fsinfo::FILE_FS_ATTRIBUTE_INFORMATION || level
                    == crate::fsinfo::FILE_FS_FULL_SIZE_INFORMATION {
                    let record = encode_volume_record(level, to_windows_time(dir.fso.last_modified));
                    proof {
                        vstd::bytes::lemma_auto_spec_u32_to_from_le_bytes();
                        vstd::bytes::lemma_auto_spec_u64_to_from_le_bytes();
                        vstd::bytes::lemma_auto_spec_u16_to_from_le_bytes();
                        reveal_with_fuel(crate::wire::utf16le, 10);
                    }
                    Ok(reply_with(encode_query_volume_response(&io, STATUS_SUCCESS, &record)))
                } else {
                    let empty: Vec<u8> = Vec::new();
                    Ok(reply_with(encode_query_volume_response(&io, STATUS_UNSUCCESSFUL, &empty)))
                }
            },
        }
    }

    /// A READ: asks the host for the bytes of the open file.
    pub fn process_irp_read(&mut self, req: DeviceReadRequest) -> (r: DriveOutput)
        ensures
            ({
                let io = req.device_io_request;
                if !old(self).cache().contains_key(io.file_id) {
                    replies(r, spec_read_response(io, STATUS_UNSUCCESSFUL, Seq::empty()))
                        && final(self).read_table() == old(self).read_table()
                } else {
                    &&& r.reply is None
                    &&& r.tdp matches Some(TdpRequest::Read(q)) && q.completion_id == io.completion_id
                        && q.directory_id == io.device_id && q.path == old(self).cache()[io.file_id].path
                        && q.offset == req.offset && q.length == req.length
                    &&& final(self).read_table() == old(self).read_table().insert(io.completion_id, io)
                }
            }),
            final(self).same_files(old(self)),
            final(self).info_table() == old(self).info_table(),
            final(self).move_table() == old(self).move_table(),
            final(self).create_table() == old(self).create_table(),
            final(self).delete_table() == old(self).delete_table(),
            final(self).list_table() == old(self).list_table(),
            final(self).write_table() == old(self).write_table(),
    {
        let io = req.device_io_request;
        match self.file_cache.get(&io.file_id) {
            None => {
                let empty: Vec<u8> = Vec::new();
                reply_with(encode_read_response(&io, STATUS_UNSUCCESSFUL, &empty))
            },
            Some(file) => {
                let q = SharedDirectoryReadRequest {
                    completion_id: io.completion_id,
                    directory_id: io.device_id,
                    path: file.path.clone(),
                    offset: req.offset,
                    length: req.length,
                };
                self.pending_read.insert(io.completion_id, io);
                request(TdpRequest::Read(q))
            },
        }
    }

    /// A WRITE: asks the host to write the bytes to the open file.
    pub fn process_irp_write(&mut self, req: DeviceWriteRequest) -> (r: DriveOutput)
        ensures
            ({
                let io = req.device_io_request;
                if !old(self).cache().contains_key(io.file_id) {
                    replies(r, spec_write_response(io, STATUS_UNSUCCESSFUL, 0))
                        && final(self).write_table() == old(self).write_table()
                } else {
                    &&& r.reply is None
                    &&& r.tdp matches Some(TdpRequest::Write(q)) && q.completion_id == io.completion_id
                        && q.directory_id == io.device_id && q.path == old(self).cache()[io.file_id].path
                        && q.offset == req.offset && q.write_data@ == req.write_data@
                    &&& final(self).write_table() == old(self).write_table().insert(io.completion_id, io)
                }
            }),
            final(self).same_files(old(self)),
            final(self).info_table() == old(self).info_table(),
            final(self).move_table() == old(self).move_table(),
            final(self).create_table() == old(self).create_table(),
            final(self).delete_table() == old(self).delete_table(),
            final(self).list_table() == old(self).list_table(),
            final(self).read_table() == old(self).read_table(),
    {
        let io = req.device_io_request;
        match self.file_cache.get(&io.file_id) {
            None => reply_with(encode_write_response(&io, STATUS_UNSUCCESSFUL, 0)),
            Some(file) => {
                let q = SharedDirectoryWriteRequest {
                    completion_id: io.completion_id,
                    directory_id: io.device_id,
                    offset: req.offset,
                    path: file.path.clone(),
                    write_data: req.write_data,
                };
                self.pending_write.insert(io.completion_id, io);
                request(TdpRequest::Write(q))
            },
        }
    }

    /// Asks the host to move the open file to `new_path`.
    fn tdp_sd_move(&mut self, req: ServerDriveSetInformationRequest, new_path: String, io_status: u32) -> (r: DriveOutput)
        requires
            spec_set_info_size(req.set_buffer) <= u32::MAX,
        ensures
            ({
                let io = req.device_io_request;
                if !old(self).cache().contains_key(io.file_id) {
                    replies(r, spec_set_info_response(io, STATUS_UNSUCCESSFUL, spec_set_info_size(req.set_buffer)))
                        && final(self).move_table() == old(self).move_table()
                } else {
                    &&& r.reply is None
                    &&& r.tdp matches Some(TdpRequest::Move(m)) && m.completion_id == io.completion_id
                        && m.directory_id == io.device_id && m.original_path == old(self).cache()[io.file_id].path
                        && m.new_path == new_path
                    &&& final(self).move_table() == old(self).move_table().insert(
                        io.completion_id,
                        PendingMove { req, new_path, io_status },
                    )
                }
            }),
            final(self).same_files(old(self)),
            final(self).same_io_tables(old(self)),
            final(self).info_table() == old(self).info_table(),
    {
        let io = req.device_io_request;
        match self.file_cache.get(&io.file_id) {
            None => reply_with(encode_set_info_response(&req, STATUS_UNSUCCESSFUL)),
            Some(file) => {
                let m = SharedDirectoryMoveRequest {
                    completion_id: io.completion_id,
                    directory_id: io.device_id,
                    original_path: file.path.clone(),
                    new_path: new_path.clone(),
                };
                self.pending_move.insert(io.completion_id, PendingMove { req, new_path, io_status });
                request(TdpRequest::Move(m))
            },
        }
    }

    /// A SET_INFORMATION on an open file: a rename goes through the host, a
    /// disposition sets or clears the pending deletion, and the other classes
    /// succeed without effect. A non-empty directory reports DIRECTORY_NOT_EMPTY
    /// in place of success and keeps its pending deletion as it was.
    pub fn process_irp_set_information(&mut self, req: ServerDriveSetInformationRequest) -> (r: DriveOutput)
        requires
            spec_set_info_size(req.set_buffer) <= u32::MAX,
        ensures
            ({
                let io = req.device_io_request;
                let size = spec_set_info_size(req.set_buffer);
                if !old(self).cache().contains_key(io.file_id) {
                    replies(r, spec_set_info_response(io, STATUS_UNSUCCESSFUL, size))
                        && final(self).unchanged(old(self))
                } else {
                    let f = old(self).cache()[io.file_id];
                    let status = spec_set_info_status(f.fso);
                    match req.set_buffer {
                        SetInformation::Rename { replace_if_exists, file_name } => {
                            let new_path = utf16_string(unix_path_units(file_name@));
                            if replace_if_exists {
                                &&& r.reply is None
                                &&& r.tdp matches Some(TdpRequest::Move(m)) && m.completion_id == io.completion_id
                                    && m.directory_id == io.device_id && m.original_path == f.path
                                    && m.new_path@ == new_path
                                &&& final(self).move_table().contains_key(io.completion_id)
                                &&& final(self).move_table()[io.completion_id].req == req
                                &&& final(self).move_table()[io.completion_id].new_path@ == new_path
                                &&& final(self).move_table()[io.completion_id].io_status == status
                                &&& final(self).move_table() == old(self).move_table().insert(
                                    io.completion_id,
                                    final(self).move_table()[io.completion_id],
                                )
                                &&& final(self).info_table() == old(self).info_table()
                            } else {
                                &&& r.reply is None
                                &&& r.tdp matches Some(TdpRequest::Info(i)) && i.completion_id == io.completion_id
                                    && i.directory_id == io.device_id && i.path@ == new_path
                                &&& final(self).info_table().contains_key(io.completion_id)
                                &&& final(self).info_table()[io.completion_id] matches PendingInfo::Rename {
                                    req: q,
                                    new_path: p,
                                    io_status: st,
                                } && q == req && p@ == new_path && st == status
                                &&& final(self).info_table() == old(self).info_table().insert(
                                    io.completion_id,
                                    final(self).info_table()[io.completion_id],
                                )
                                &&& final(self).move_table() == old(self).move_table()
                            }
                        },
                        SetInformation::Disposition { delete_pending } => {
                            &&& replies(r, spec_set_info_response(io, status, size))
                            &&& final(self).cache() == old(self).cache().insert(
                                io.file_id,
                                FileCacheObject {
                                    delete_pending: if status == STATUS_SUCCESS {
                                        delete_pending == 1
                                    } else {
                                        f.delete_pending
                                    },
                                    ..f
                                },
                            )
                            &&& final(self).info_table() == old(self).info_table()
                            &&& final(self).move_table() == old(self).move_table()
                        },
                        _ => replies(r, spec_set_info_response(io, status, size)) && final(self).unchanged(
                            old(self),
                        ),
                    }
                }
            }),
            final(self).same_io_tables(old(self)),
            final(self).last_file_id() == old(self).last_file_id(),
            final(self).sharing_allowed() == old(self).sharing_allowed(),
            !(req.set_buffer is Disposition) ==> final(self).cache() == old(self).cache(),
    {
        let io = req.device_io_request;
        let is_dir_not_empty = match self.file_cache.get(&io.file_id) {
            None => {
                return reply_with(encode_set_info_response(&req, STATUS_UNSUCCESSFUL));
            },
            Some(file) => file.fso.file_type == FileType::Directory && !file.fso.is_empty,
        };
        let io_status = if is_dir_not_empty {
            STATUS_DIRECTORY_NOT_EMPTY
        } else {
            STATUS_SUCCESS
        };
        match &req.set_buffer {
            SetInformation::Rename { replace_if_exists, file_name } => {
                let new_path = unix_path(file_name);
                if *replace_if_exists {
                    self.tdp_sd_move(req, new_path, io_status)
                } else {
                    let info = SharedDirectoryInfoRequest {
                        completion_id: io.completion_id,
                        directory_id: io.device_id,
                        path: new_path.clone(),
                    };
                    self.pending_info.insert(io.completion_id, PendingInfo::Rename { req, new_path, io_status });
                    request(TdpRequest::Info(info))
                }
            },
            SetInformation::Disposition { delete_pending } => {
                let reply = encode_set_info_response(&req, io_status);
                let mut f = self.file_cache.remove(&io.file_id).unwrap();
                if !is_dir_not_empty {
                    f.delete_pending = *delete_pending == 1;
                }
                self.file_cache.insert(io.file_id, f);
                proof {
                    assert(self.file_cache@ =~= old(self).file_cache@.insert(io.file_id, f));
                }
                reply_with(reply)
            },
            _ => reply_with(encode_set_info_response(&req, io_status)),
        }
    }
}

impl Client {
    /// Opens a created or existing object under a new file id.
    fn open_file(&mut self, req: &DeviceCreateRequest, fso: FileSystemObject) -> (r: DriveOutput)
        ensures
            ({
                let id = spec_next_file_id(old(self).last_file_id());
                &&& final(self).last_file_id() == id
                &&& final(self).cache().contains_key(id)
                &&& is_fresh_open(final(self).cache()[id], utf16_string(unix_path_units(req.path@)), fso)
                &&& final(self).cache() == old(self).cache().insert(id, final(self).cache()[id])
                &&& replies(
                    r,
                    spec_create_response(req.device_io_request, req.create_disposition, STATUS_SUCCESS, id),
                )
            }),
            final(self).same_io_tables(old(self)),
            final(self).info_table() == old(self).info_table(),
            final(self).move_table() == old(self).move_table(),
            final(self).sharing_allowed() == old(self).sharing_allowed(),
    {
        let file_id = self.generate_file_id();
        let path = unix_path(&req.path);
        self.file_cache.insert(file_id, FileCacheObject::new(path, fso));
        reply_with(encode_create_response(req, STATUS_SUCCESS, file_id))
    }

    /// Asks the host to create the object of a CREATE.
    fn tdp_sd_create(&mut self, req: DeviceCreateRequest, file_type: FileType) -> (r: DriveOutput)
        ensures
            r.reply is None,
            r.tdp matches Some(TdpRequest::Create(c)) && c.completion_id == req.device_io_request.completion_id
                && c.directory_id == req.device_io_request.device_id && c.file_type == file_type
                && c.path@ == utf16_string(unix_path_units(req.path@)),
            final(self).create_table() == old(self).create_table().insert(req.device_io_request.completion_id, req),
            final(self).same_files(old(self)),
            final(self).info_table() == old(self).info_table(),
            final(self).move_table() == old(self).move_table(),
            final(self).delete_table() == old(self).delete_table(),
            final(self).list_table() == old(self).list_table(),
            final(self).read_table() == old(self).read_table(),
            final(self).write_table() == old(self).write_table(),
    {
        let cid = req.device_io_request.completion_id;
        let c = SharedDirectoryCreateRequest {
            completion_id: cid,
            directory_id: req.device_io_request.device_id,
            file_type,
            path: unix_path(&req.path),
        };
        self.pending_create.insert(cid, req);
        request(TdpRequest::Create(c))
    }

    /// Handles an info response: decides a waiting CREATE, or goes on with a
    /// waiting rename. A completion id with no waiting probe is refused.
    pub fn handle_tdp_sd_info_response(&mut self, res: SharedDirectoryInfoResponse) -> (r: RdpResult<DriveOutput>)
        ensures
            !old(self).info_table().contains_key(res.completion_id) ==> r == Err::<DriveOutput, ErrorKind>(
                ErrorKind::TdpMismatch,
            ) && final(self).unchanged(old(self)),
            old(self).info_table().contains_key(res.completion_id) ==> {
                &&& final(self).info_table() == old(self).info_table().remove(res.completion_id)
                &&& final(self).sharing_allowed() == old(self).sharing_allowed()
                &&& final(self).list_table() == old(self).list_table()
                &&& final(self).read_table() == old(self).read_table()
                &&& final(self).write_table() == old(self).write_table()
                &&& match old(self).info_table()[res.completion_id] {
                    PendingInfo::Create(req) => {
                        let io = req.device_io_request;
                        let path = utf16_string(unix_path_units(req.path@));
                        &&& final(self).move_table() == old(self).move_table()
                        &&& if res.err_code == TdpErrCode::Failed || res.err_code == TdpErrCode::AlreadyExists {
                            &&& r == Err::<DriveOutput, ErrorKind>(ErrorKind::TdpOpFailed)
                            &&& final(self).cache() == old(self).cache()
                            &&& final(self).last_file_id() == old(self).last_file_id()
                            &&& final(self).create_table() == old(self).create_table()
                            &&& final(self).delete_table() == old(self).delete_table()
                        } else {
                            match spec_create_action(
                                req.create_disposition,
                                res.err_code == TdpErrCode::Nil,
                                res.fso.file_type,
                                req.create_options,
                            ) {
                                CreateAction::Fail(status) => {
                                    &&& r matches Ok(o) && replies(
                                        o,
                                        spec_create_response(io, req.create_disposition, status, 0),
                                    )
                                    &&& final(self).cache() == old(self).cache()
                                    &&& final(self).last_file_id() == old(self).last_file_id()
                                    &&& final(self).create_table() == old(self).create_table()
                                    &&& final(self).delete_table() == old(self).delete_table()
                                },
                                CreateAction::Open => {
                                    let id = spec_next_file_id(old(self).last_file_id());
                                    &&& r matches Ok(o) && replies(
                                        o,
                                        spec_create_response(io, req.create_disposition, STATUS_SUCCESS, id),
                                    )
                                    &&& final(self).last_file_id() == id
                                    &&& final(self).cache().contains_key(id)
                                    &&& is_fresh_open(final(self).cache()[id], path, res.fso)
                                    &&& final(self).cache() == old(self).cache().insert(id, final(self).cache()[id])
                                    &&& final(self).create_table() == old(self).create_table()
                                    &&& final(self).delete_table() == old(self).delete_table()
                                },
                                CreateAction::CreateNew(t) => {
                                    &&& r matches Ok(o) && o.reply is None && (o.tdp matches Some(
                                        TdpRequest::Create(c),
                                    ) && c.completion_id == io.completion_id && c.directory_id == io.device_id
                                        && c.file_type == t && c.path@ == path)
                                    &&& final(self).create_table() == old(self).create_table().insert(
                                        io.completion_id,
                                        req,
                                    )
                                    &&& final(self).cache() == old(self).cache()
                                    &&& final(self).last_file_id() == old(self).last_file_id()
                                    &&& final(self).delete_table() == old(self).delete_table()
                                },
                                CreateAction::Overwrite => {
                                    &&& r matches Ok(o) && o.reply is None && (o.tdp matches Some(
                                        TdpRequest::Delete(d),
                                    ) && d.completion_id == res.completion_id && d.directory_id == io.device_id
                                        && d.path@ == path)
                                    &&& final(self).delete_table() == old(self).delete_table().insert(
                                        res.completion_id,
                                        PendingDelete::Overwrite(req),
                                    )
                                    &&& final(self).cache() == old(self).cache()
                                    &&& final(self).last_file_id() == old(self).last_file_id()
                                    &&& final(self).create_table() == old(self).create_table()
                                },
                            }
                        }
                    },
                    PendingInfo::Rename { req, new_path, io_status } => {
                        let io = req.device_io_request;
                        let size = spec_set_info_size(req.set_buffer);
                        &&& final(self).cache() == old(self).cache()
                        &&& final(self).last_file_id() == old(self).last_file_id()
                        &&& final(self).create_table() == old(self).create_table()
                        &&& final(self).delete_table() == old(self).delete_table()
                        &&& size <= u32::MAX ==> if res.err_code != TdpErrCode::DoesNotExist {
                            (r matches Ok(o) && replies(
                                o,
                                spec_set_info_response(io, STATUS_OBJECT_NAME_COLLISION, size),
                            )) && final(self).move_table() == old(self).move_table()
                        } else if !old(self).cache().contains_key(io.file_id) {
                            (r matches Ok(o) && replies(o, spec_set_info_response(io, STATUS_UNSUCCESSFUL, size)))
                                && final(self).move_table() == old(self).move_table()
                        } else {
                            &&& r matches Ok(o) && o.reply is None && (o.tdp matches Some(TdpRequest::Move(m))
                                && m.completion_id == io.completion_id && m.directory_id == io.device_id
                                && m.original_path == old(self).cache()[io.file_id].path && m.new_path
                                == new_path)
                            &&& final(self).move_table() == old(self).move_table().insert(
                                io.completion_id,
                                PendingMove { req, new_path, io_status },
                            )
                        }
                    },
                }
            },
    {
        let cid = res.completion_id;
        let pending = match self.pending_info.remove(&cid) {
            Some(p) => p,
            None => {
                proof {
                    assert(self.pending_info@ =~= old(self).pending_info@);
                }
                return Err(ErrorKind::TdpMismatch);
            },
        };
        match pending {
            PendingInfo::Create(req) => {
                if res.err_code == TdpErrCode::Failed || res.err_code == TdpErrCode::AlreadyExists {
                    return Err(ErrorKind::TdpOpFailed);
                }
                let exists = res.err_code == TdpErrCode::Nil;
                match create_action(req.create_disposition, exists, res.fso.file_type, req.create_options) {
                    CreateAction::Fail(status) => Ok(reply_with(encode_create_response(&req, status, 0))),
                    CreateAction::Open => Ok(self.open_file(&req, res.fso)),
                    CreateAction::CreateNew(t) => Ok(self.tdp_sd_create(req, t)),
                    CreateAction::Overwrite => {
                        let d = SharedDirectoryDeleteRequest {
                            completion_id: cid,
                            directory_id: req.device_io_request.device_id,
                            path: unix_path(&req.path),
                        };
                        self.pending_delete.insert(cid, PendingDelete::Overwrite(req));
                        Ok(request(TdpRequest::Delete(d)))
                    },
                }
            },
            PendingInfo::Rename { req, new_path, io_status } => {
                if res.err_code == TdpErrCode::DoesNotExist {
                    if spec_set_info_size_ok(&req) {
                        Ok(self.tdp_sd_move(req, new_path, io_status))
                    } else {
                        Err(ErrorKind::Protocol)
                    }
                } else {
                    if spec_set_info_size_ok(&req) {
                        Ok(reply_with(encode_set_info_response(&req, STATUS_OBJECT_NAME_COLLISION)))
                    } else {
                        Err(ErrorKind::Protocol)
                    }
                }
            },
        }
    }

    /// Handles a create response: opens the new object, or reports failure.
    pub fn handle_tdp_sd_create_response(&mut self, res: SharedDirectoryCreateResponse) -> (r: RdpResult<DriveOutput>)
        ensures
            !old(self).create_table().contains_key(res.completion_id) ==> r == Err::<DriveOutput, ErrorKind>(
                ErrorKind::TdpMismatch,
            ) && final(self).unchanged(old(self)),
            old(self).create_table().contains_key(res.completion_id) ==> ({
                let req = old(self).create_table()[res.completion_id];
                &&& final(self).create_table() == old(self).create_table().remove(res.completion_id)
                &&& final(self).sharing_allowed() == old(self).sharing_allowed()
                &&& final(self).info_table() == old(self).info_table()
                &&& final(self).move_table() == old(self).move_table()
                &&& final(self).delete_table() == old(self).delete_table()
                &&& final(self).list_table() == old(self).list_table()
                &&& final(self).read_table() == old(self).read_table()
                &&& final(self).write_table() == old(self).write_table()
                &&& if res.err_code != TdpErrCode::Nil {
                    &&& r matches Ok(o) && replies(
                        o,
                        spec_create_response(req.device_io_request, req.create_disposition, STATUS_UNSUCCESSFUL, 0),
                    )
                    &&& final(self).cache() == old(self).cache()
                    &&& final(self).last_file_id() == old(self).last_file_id()
                } else {
                    let id = spec_next_file_id(old(self).last_file_id());
                    &&& r matches Ok(o) && replies(
                        o,
                        spec_create_response(req.device_io_request, req.create_disposition, STATUS_SUCCESS, id),
                    )
                    &&& final(self).last_file_id() == id
                    &&& final(self).cache().contains_key(id)
                    &&& is_fresh_open(final(self).cache()[id], utf16_string(unix_path_units(req.path@)), res.fso)
                    &&& final(self).cache() == old(self).cache().insert(id, final(self).cache()[id])
                }
            }),
    {
        let req = match self.pending_create.remove(&res.completion_id) {
            Some(q) => q,
            None => {
                proof {
                    assert(self.pending_create@ =~= old(self).pending_create@);
                }
                return Err(ErrorKind::TdpMismatch);
            },
        };
        if res.err_code != TdpErrCode::Nil {
            return Ok(reply_with(encode_create_response(&req, STATUS_UNSUCCESSFUL, 0)));
        }
        Ok(self.open_file(&req, res.fso))
    }

    /// Handles a delete response: re-creates an overwritten file, or completes a close.
    pub fn handle_tdp_sd_delete_response(&mut self, res: SharedDirectoryDeleteResponse) -> (r: RdpResult<DriveOutput>)
        ensures
            !old(self).delete_table().contains_key(res.completion_id) ==> r == Err::<DriveOutput, ErrorKind>(
                ErrorKind::TdpMismatch,
            ) && final(self).unchanged(old(self)),
            old(self).delete_table().contains_key(res.completion_id) ==> {
                &&& final(self).delete_table() == old(self).delete_table().remove(res.completion_id)
                &&& final(self).same_files(old(self))
                &&& final(self).info_table() == old(self).info_table()
                &&& final(self).move_table() == old(self).move_table()
                &&& final(self).list_table() == old(self).list_table()
                &&& final(self).read_table() == old(self).read_table()
                &&& final(self).write_table() == old(self).write_table()
                &&& match old(self).delete_table()[res.completion_id] {
                    PendingDelete::Close(io) => {
                        &&& r matches Ok(o) && replies(
                            o,
                            spec_close_response(
                                io,
                                if res.err_code == TdpErrCode::Nil {
                                    STATUS_SUCCESS
                                } else {
                                    STATUS_UNSUCCESSFUL
                                },
                            ),
                        )
                        &&& final(self).create_table() == old(self).create_table()
                    },
                    PendingDelete::Overwrite(req) => if res.err_code == TdpErrCode::Nil {
                        let io = req.device_io_request;
                        &&& r matches Ok(o) && o.reply is None && (o.tdp matches Some(TdpRequest::Create(c))
                            && c.file_type == FileType::File && c.completion_id == io.completion_id
                            && c.directory_id == io.device_id && c.path@ == utf16_string(
                            unix_path_units(req.path@),
                        ))
                        &&& final(self).create_table() == old(self).create_table().insert(io.completion_id, req)
                    } else {
                        &&& r matches Ok(o) && replies(
                            o,
                            spec_create_response(req.device_io_request, req.create_disposition, STATUS_UNSUCCESSFUL, 0),
                        )
                        &&& final(self).create_table() == old(self).create_table()
                    },
                }
            },
    {
        let pending = match self.pending_delete.remove(&res.completion_id) {
            Some(p) => p,
            None => {
                proof {
                    assert(self.pending_delete@ =~= old(self).pending_delete@);
                }
                return Err(ErrorKind::TdpMismatch);
            },
        };
        match pending {
            PendingDelete::Close(io) => {
                let status = if res.err_code == TdpErrCode::Nil {
                    STATUS_SUCCESS
                } else {
                    STATUS_UNSUCCESSFUL
                };
                Ok(reply_with(encode_close_response(&io, status)))
            },
            PendingDelete::Overwrite(req) => {
                if res.err_code == TdpErrCode::Nil {
                    Ok(self.tdp_sd_create(req, FileType::File))
                } else {
                    Ok(reply_with(encode_create_response(&req, STATUS_UNSUCCESSFUL, 0)))
                }
            },
        }
    }

    /// Handles a list response: fills the directory's contents, restarts its
    /// listing, and replies with the first entry.
    pub fn handle_tdp_sd_list_response(&mut self, res: SharedDirectoryListResponse) -> (r: RdpResult<DriveOutput>)
        ensures
            !old(self).list_table().contains_key(res.completion_id) ==> r == Err::<DriveOutput, ErrorKind>(
                ErrorKind::TdpMismatch,
            ) && final(self).unchanged(old(self)),
            old(self).list_table().contains_key(res.completion_id) ==> ({
                let req = old(self).list_table()[res.completion_id];
                let io = req.device_io_request;
                let id = io.file_id;
                &&& final(self).list_table() == old(self).list_table().remove(res.completion_id)
                &&& final(self).same_files_but_cache(old(self))
                &&& final(self).info_table() == old(self).info_table()
                &&& final(self).move_table() == old(self).move_table()
                &&& final(self).create_table() == old(self).create_table()
                &&& final(self).delete_table() == old(self).delete_table()
                &&& final(self).read_table() == old(self).read_table()
                &&& final(self).write_table() == old(self).write_table()
                &&& if res.err_code != TdpErrCode::Nil || !old(self).cache().contains_key(id) {
                    (r matches Ok(o) && replies(o, spec_query_dir_response(io, STATUS_UNSUCCESSFUL, Seq::empty())))
                        && final(self).cache() == old(self).cache()
                } else if !is_dir_level(req.file_info_class_lvl) {
                    r == Err::<DriveOutput, ErrorKind>(ErrorKind::Protocol) && final(self).cache() == old(self).cache()
                } else {
                    listing_step(
                        *old(self),
                        *final(self),
                        FileCacheObject {
                            contents: res.fso_list,
                            contents_i: 0,
                            dot_sent: false,
                            dotdot_sent: false,
                            ..old(self).cache()[id]
                        },
                        io,
                        req.file_info_class_lvl,
                        r,
                    )
                }
            }),
    {
        let req = match self.pending_list.remove(&res.completion_id) {
            Some(q) => q,
            None => {
                proof {
                    assert(self.pending_list@ =~= old(self).pending_list@);
                }
                return Err(ErrorKind::TdpMismatch);
            },
        };
        let io = req.device_io_request;
        if res.err_code != TdpErrCode::Nil || !self.file_cache.contains_key(&io.file_id) {
            let empty: Vec<u8> = Vec::new();
            return Ok(reply_with(encode_query_dir_response(&io, STATUS_UNSUCCESSFUL, &empty)));
        }
        let level = req.file_info_class_lvl;
        if !(level == 1 || level == 2 || level == 3 || level == 12) {
            return Err(ErrorKind::Protocol);
        }
        let mut f = self.file_cache.remove(&io.file_id).unwrap();
        f.contents = res.fso_list;
        f.contents_i = 0;
        f.dot_sent = false;
        f.dotdot_sent = false;
        self.file_cache.insert(io.file_id, f);
        let ghost mid = *self;
        proof {
            assert(self.file_cache@ =~= old(self).file_cache@.insert(io.file_id, f));
        }
        let r = self.next_listing_reply(io, level);
        proof {
            assert(self.cache() =~= old(self).cache().insert(io.file_id, self.cache()[io.file_id]));
        }
        r
    }

    /// Handles a read response: the bytes read, or failure.
    pub fn handle_tdp_sd_read_response(&mut self, res: SharedDirectoryReadResponse) -> (r: RdpResult<DriveOutput>)
        ensures
            !old(self).read_table().contains_key(res.completion_id) ==> r == Err::<DriveOutput, ErrorKind>(
                ErrorKind::TdpMismatch,
            ) && final(self).unchanged(old(self)),
            old(self).read_table().contains_key(res.completion_id) ==> {
                let io = old(self).read_table()[res.completion_id];
                &&& final(self).read_table() == old(self).read_table().remove(res.completion_id)
                &&& final(self).same_files(old(self))
                &&& if res.err_code == TdpErrCode::Nil && res.read_data@.len() <= u32::MAX {
                    r matches Ok(o) && replies(o, spec_read_response(io, STATUS_SUCCESS, res.read_data@))
                } else {
                    r matches Ok(o) && replies(o, spec_read_response(io, STATUS_UNSUCCESSFUL, Seq::empty()))
                }
            },
    {
        let io = match self.pending_read.remove(&res.completion_id) {
            Some(q) => q,
            None => {
                proof {
                    assert(self.pending_read@ =~= old(self).pending_read@);
                }
                return Err(ErrorKind::TdpMismatch);
            },
        };
        if res.err_code == TdpErrCode::Nil && res.read_data.len() <= 0xffff_ffffusize {
            Ok(reply_with(encode_read_response(&io, STATUS_SUCCESS, &res.read_data)))
        } else {
            let empty: Vec<u8> = Vec::new();
            Ok(reply_with(encode_read_response(&io, STATUS_UNSUCCESSFUL, &empty)))
        }
    }

    /// Handles a write response: the count written, or failure.
    pub fn handle_tdp_sd_write_response(&mut self, res: SharedDirectoryWriteResponse) -> (r: RdpResult<DriveOutput>)
        ensures
            !old(self).write_table().contains_key(res.completion_id) ==> r == Err::<DriveOutput, ErrorKind>(
                ErrorKind::TdpMismatch,
            ) && final(self).unchanged(old(self)),
            old(self).write_table().contains_key(res.completion_id) ==> {
                let io = old(self).write_table()[res.completion_id];
                &&& final(self).write_table() == old(self).write_table().remove(res.completion_id)
                &&& final(self).same_files(old(self))
                &&& if res.err_code == TdpErrCode::Nil {
                    r matches Ok(o) && replies(o, spec_write_response(io, STATUS_SUCCESS, res.bytes_written))
                } else {
                    r matches Ok(o) && replies(o, spec_write_response(io, STATUS_UNSUCCESSFUL, 0))
                }
            },
    {
        let io = match self.pending_write.remove(&res.completion_id) {
            Some(q) => q,
            None => {
                proof {
                    assert(self.pending_write@ =~= old(self).pending_write@);
                }
                return Err(ErrorKind::TdpMismatch);
            },
        };
        if res.err_code == TdpErrCode::Nil {
            Ok(reply_with(encode_write_response(&io, STATUS_SUCCESS, res.bytes_written)))
        } else {
            Ok(reply_with(encode_write_response(&io, STATUS_UNSUCCESSFUL, 0)))
        }
    }

    /// Handles a move response: the status recorded with the move, or failure.
    pub fn handle_tdp_sd_move_response(&mut self, res: SharedDirectoryMoveResponse) -> (r: RdpResult<DriveOutput>)
        ensures
            !old(self).move_table().contains_key(res.completion_id) ==> r == Err::<DriveOutput, ErrorKind>(
                ErrorKind::TdpMismatch,
            ) && final(self).unchanged(old(self)),
            old(self).move_table().contains_key(res.completion_id) ==> {
                let m = old(self).move_table()[res.completion_id];
                let fid = m.req.device_io_request.file_id;
                &&& final(self).move_table() == old(self).move_table().remove(res.completion_id)
                &&& final(self).same_files_but_cache(old(self))
                &&& final(self).same_io_tables(old(self))
                &&& final(self).info_table() == old(self).info_table()
                &&& if res.err_code == TdpErrCode::Nil && old(self).cache().contains_key(fid) {
                    final(self).cache() == old(self).cache().insert(
                        fid,
                        FileCacheObject { path: m.new_path, ..old(self).cache()[fid] },
                    )
                } else {
                    final(self).cache() == old(self).cache()
                }
                &&& spec_set_info_size(m.req.set_buffer) <= u32::MAX ==> (r matches Ok(o) && replies(
                    o,
                    spec_set_info_response(
                        m.req.device_io_request,
                        if res.err_code == TdpErrCode::Nil {
                            m.io_status
                        } else {
                            STATUS_UNSUCCESSFUL
                        },
                        spec_set_info_size(m.req.set_buffer),
                    ),
                ))
            },
    {
        let m = match self.pending_move.remove(&res.completion_id) {
            Some(q) => q,
            None => {
                proof {
                    assert(self.pending_move@ =~= old(self).pending_move@);
                }
                return Err(ErrorKind::TdpMismatch);
            },
        };
        let fid = m.req.device_io_request.file_id;
        if res.err_code == TdpErrCode::Nil {
            match self.file_cache.remove(&fid) {
                Some(mut f) => {
                    f.path = m.new_path.clone();
                    self.file_cache.insert(fid, f);
                    proof {
                        assert(self.file_cache@ =~= old(self).file_cache@.insert(fid, f));
                    }
                },
                None => {
                    proof {
                        assert(self.file_cache@ =~= old(self).file_cache@);
                    }
                },
            }
        }
        if !spec_set_info_size_ok(&m.req) {
            return Err(ErrorKind::Protocol);
        }
        let status = if res.err_code == TdpErrCode::Nil {
            m.io_status
        } else {
            STATUS_UNSUCCESSFUL
        };
        Ok(reply_with(encode_set_info_response(&m.req, status)))
    }
}

/// Whether the buffer size of a set information request fits its field.
fn spec_set_info_size_ok(req: &ServerDriveSetInformationRequest) -> (r: bool)
    ensures
        r == (spec_set_info_size(req.set_buffer) <= u32::MAX),
{
    match &req.set_buffer {
        SetInformation::Rename { file_name, .. } => file_name.len() <= 0x7fff_fffcusize,
        _ => true,
    }
}

/// A completion table receiving a host response for `id`: accepted, with the
/// id taken out, exactly when the id is in flight; refused otherwise.
pub open spec fn accept_response<V>(t: Map<u32, V>, id: u32) -> Option<Map<u32, V>> {
    if t.contains_key(id) {
        Some(t.remove(id))
    } else {
        None
    }
}

/// A completion table receiving host responses for `ids`, in order; `None` once
/// one is refused.
pub open spec fn accept_responses<V>(t: Map<u32, V>, ids: Seq<u32>) -> Option<Map<u32, V>>
    decreases ids.len(),
{
    if ids.len() == 0 {
        Some(t)
    } else {
        match accept_responses(t, ids.drop_last()) {
            None => None,
            Some(t2) => accept_response(t2, ids.last()),
        }
    }
}

/// Host responses are matched to in-flight requests by completion id alone:
/// responses whose ids are distinct and all in flight are each accepted, in the
/// order they arrive, and afterwards none of those ids is in flight, so a further
/// response for any of them is refused as a mismatch.
pub proof fn lemma_correlation<V>(t: Map<u32, V>, ids: Seq<u32>)
    requires
        ids.no_duplicates(),
        forall|i: int| 0 <= i < ids.len() ==> t.contains_key(#[trigger] ids[i]),
    ensures
        accept_responses(t, ids) == Some(t.remove_keys(ids.to_set())),
        forall|i: int| 0 <= i < ids.len() ==> accept_response(t.remove_keys(ids.to_set()), #[trigger] ids[i]) is None,
    decreases ids.len(),
{
    if ids.len() > 0 {
        let prev = ids.drop_last();
        assert(prev.no_duplicates());
        lemma_correlation(t, prev);
        let t2 = t.remove_keys(prev.to_set());
        let last = ids.last();
        assert(!prev.contains(last)) by {
            if prev.contains(last) {
                let j = choose|j: int| 0 <= j < prev.len() && prev[j] == last;
                assert(ids[j] == ids[ids.len() - 1]);
            }
        }
        assert(ids[ids.len() - 1] == last);
        assert(t2.contains_key(last));
        assert(ids.to_set() =~= prev.to_set().insert(last)) by {
            assert forall|x: u32| ids.to_set().contains(x) <==> prev.to_set().insert(last).contains(x) by {
                if ids.to_set().contains(x) {
                    let j = choose|j: int| 0 <= j < ids.len() && ids[j] == x;
                    if j < ids.len() - 1 {
                        assert(prev[j] == x);
                    }
                }
                if prev.to_set().contains(x) {
                    let j = choose|j: int| 0 <= j < prev.len() && prev[j] == x;
                    assert(ids[j] == x);
                }
            }
        }
        assert(t2.remove(last) =~= t.remove_keys(ids.to_set()));
    }
    assert forall|i: int| 0 <= i < ids.len() implies accept_response(t.remove_keys(ids.to_set()), #[trigger] ids[i]) is None by {
        assert(ids.to_set().contains(ids[i]));
    }
}

} // verus!
