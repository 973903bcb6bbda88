//! Device redirection (RDPDR): the shared header, the negotiation messages
//! and the device I/O requests and responses.
use crate::dir::{
    spec_create_action, spec_next_file_id, CreateAction, DriveOutput, PendingDelete, PendingInfo,
};
use crate::error::{ErrorKind, RdpResult};
use crate::tdp::{
    SharedDirectoryCreateResponse, SharedDirectoryDeleteResponse, SharedDirectoryInfoResponse,
    SharedDirectoryListResponse, SharedDirectoryMoveResponse, SharedDirectoryReadResponse,
    SharedDirectoryWriteResponse, TdpRequest,
};
use crate::vchan::{
    encode_chunks, reassembly_fails, reassembly_next, reassembly_output, spec_chunks, Reassembler,
};
use crate::wire::{
    bounded_units, copy_range, push_all, push_u16, push_u32, push_u8, push_zeros, read_bounded_units,
    read_u16, read_u32, read_u64, u16_at, u32_at, u64_at,
};
use vstd::bytes::*;
use vstd::prelude::*;

verus! {

pub const CHANNEL_NAME: &'static str = "rdpdr";

pub const RDPDR_CTYP_CORE: u16 = 0x4472;

pub const RDPDR_CTYP_PRN: u16 = 0x5052;

pub const PAKID_CORE_SERVER_ANNOUNCE: u16 = 0x496e;

pub const PAKID_CORE_CLIENTID_CONFIRM: u16 = 0x4343;

pub const PAKID_CORE_CLIENT_NAME: u16 = 0x434e;

pub const PAKID_CORE_DEVICELIST_ANNOUNCE: u16 = 0x4441;

pub const PAKID_CORE_DEVICE_REPLY: u16 = 0x6472;

pub const PAKID_CORE_DEVICE_IOREQUEST: u16 = 0x4952;

pub const PAKID_CORE_DEVICE_IOCOMPLETION: u16 = 0x4943;

pub const PAKID_CORE_SERVER_CAPABILITY: u16 = 0x5350;

pub const PAKID_CORE_CLIENT_CAPABILITY: u16 = 0x4350;

pub const VERSION_MAJOR: u16 = 1;

pub const VERSION_MINOR: u16 = 13;

pub const GENERAL_CAPABILITY_VERSION_02: u32 = 2;

pub const SMARTCARD_CAPABILITY_VERSION_01: u32 = 1;

pub const DRIVE_CAPABILITY_VERSION_02: u32 = 2;

pub const CAP_GENERAL_TYPE: u16 = 1;

pub const CAP_DRIVE_TYPE: u16 = 4;

pub const CAP_SMARTCARD_TYPE: u16 = 5;

pub const RDPDR_DTYP_FILESYSTEM: u32 = 0x8;

pub const RDPDR_DTYP_SMARTCARD: u32 = 0x20;

pub const SCARD_DEVICE_ID: u32 = 1;

pub const IRP_MJ_CREATE: u32 = 0x0;

pub const IRP_MJ_CLOSE: u32 = 0x2;

pub const IRP_MJ_READ: u32 = 0x3;

pub const IRP_MJ_WRITE: u32 = 0x4;

pub const IRP_MJ_QUERY_INFORMATION: u32 = 0x5;

pub const IRP_MJ_SET_INFORMATION: u32 = 0x6;

pub const IRP_MJ_QUERY_VOLUME_INFORMATION: u32 = 0xa;

pub const IRP_MJ_SET_VOLUME_INFORMATION: u32 = 0xb;

pub const IRP_MJ_DIRECTORY_CONTROL: u32 = 0xc;

pub const IRP_MJ_DEVICE_CONTROL: u32 = 0xe;

pub const IRP_MJ_LOCK_CONTROL: u32 = 0x11;

pub const IRP_MN_QUERY_DIRECTORY: u32 = 0x1;

pub const IRP_MN_NOTIFY_CHANGE_DIRECTORY: u32 = 0x2;

pub const STATUS_SUCCESS: u32 = 0x0000_0000;

pub const STATUS_UNSUCCESSFUL: u32 = 0xc000_0001;

pub const STATUS_NOT_SUPPORTED: u32 = 0xc000_00bb;

pub const STATUS_NO_MORE_FILES: u32 = 0x8000_0006;

pub const STATUS_OBJECT_NAME_COLLISION: u32 = 0xc000_0035;

pub const STATUS_ACCESS_DENIED: u32 = 0xc000_0022;

pub const STATUS_NOT_A_DIRECTORY: u32 = 0xc000_0103;

pub const STATUS_NO_SUCH_FILE: u32 = 0xc000_000f;

pub const STATUS_DIRECTORY_NOT_EMPTY: u32 = 0xc000_0101;

pub const FILE_SUPERSEDE: u32 = 0;

pub const FILE_OPEN: u32 = 1;

pub const FILE_CREATE: u32 = 2;

pub const FILE_OPEN_IF: u32 = 3;

pub const FILE_OVERWRITE: u32 = 4;

pub const FILE_OVERWRITE_IF: u32 = 5;

pub const FILE_DIRECTORY_FILE: u32 = 0x1;

pub const FILE_NON_DIRECTORY_FILE: u32 = 0x40;

pub const FILE_SUPERSEDED: u8 = 0;

pub const FILE_OPENED: u8 = 1;

pub const FILE_OVERWRITTEN: u8 = 3;

pub const PAKID_CORE_DEVICELIST_REMOVE: u16 = 0x444d;

pub const PAKID_PRN_CACHE_DATA: u16 = 0x5043;

pub const PAKID_CORE_USER_LOGGEDON: u16 = 0x554c;

pub const PAKID_PRN_USING_XPS: u16 = 0x5543;

/// Whether a packet id is one that MS-RDPEFS defines.
pub open spec fn is_known_packet_id(id: u16) -> bool {
    id == PAKID_CORE_SERVER_ANNOUNCE || id == PAKID_CORE_CLIENTID_CONFIRM || id
        == PAKID_CORE_CLIENT_NAME || id == PAKID_CORE_DEVICELIST_ANNOUNCE || id
        == PAKID_CORE_DEVICE_REPLY || id == PAKID_CORE_DEVICE_IOREQUEST || id
        == PAKID_CORE_DEVICE_IOCOMPLETION || id == PAKID_CORE_SERVER_CAPABILITY || id
        == PAKID_CORE_CLIENT_CAPABILITY || id == PAKID_CORE_DEVICELIST_REMOVE || id
        == PAKID_PRN_CACHE_DATA || id == PAKID_CORE_USER_LOGGEDON || id == PAKID_PRN_USING_XPS
}

/// Length of the shared header.
pub const SHARED_HEADER_LENGTH: usize = 4;

/// Length of a device I/O request header.
pub const DEVICE_IO_REQUEST_LENGTH: usize = 20;

/// The shared header present at the start of every RDPDR message.
#[derive(Clone, Copy, Debug, PartialEq, Eq, Structural)]
pub struct SharedHeader {
    pub component: u16,
    pub packet_id: u16,
}

pub open spec fn spec_shared_header(component: u16, packet_id: u16) -> Seq<u8> {
    spec_u16_to_le_bytes(component) + spec_u16_to_le_bytes(packet_id)
}

impl SharedHeader {
    pub fn new(component: u16, packet_id: u16) -> (r: SharedHeader)
        ensures
            r.component == component,
            r.packet_id == packet_id,
    {
        SharedHeader { component, packet_id }
    }

    pub fn encode(&self) -> (r: Vec<u8>)
        ensures
            r@ == spec_shared_header(self.component, self.packet_id),
    {
        let mut w: Vec<u8> = Vec::new();
        push_u16(&mut w, self.component);
        push_u16(&mut w, self.packet_id);
        proof {
            assert(w@ =~= spec_shared_header(self.component, self.packet_id));
        }
        w
    }

    /// Reads the header; the component must be CORE or PRN, and the packet id
    /// a defined one.
    pub fn decode(b: &Vec<u8>) -> (r: RdpResult<SharedHeader>)
        ensures
            b@.len() < 4 ==> r == Err::<SharedHeader, ErrorKind>(ErrorKind::Protocol),
            b@.len() >= 4 ==> {
                let c = u16_at(b@, 0);
                if (c == RDPDR_CTYP_CORE || c == RDPDR_CTYP_PRN) && is_known_packet_id(u16_at(b@, 2)) {
                    r == Ok::<SharedHeader, ErrorKind>(
                        SharedHeader { component: c, packet_id: u16_at(b@, 2) },
                    )
                } else {
                    r == Err::<SharedHeader, ErrorKind>(ErrorKind::Protocol)
                }
            },
    {
        if b.len() < 4 {
            return Err(ErrorKind::Protocol);
        }
        let component = read_u16(b, 0).unwrap();
        let packet_id = read_u16(b, 2).unwrap();
        if component != RDPDR_CTYP_CORE && component != RDPDR_CTYP_PRN {
            return Err(ErrorKind::Protocol);
        }
        let id = packet_id;
        if !(id == PAKID_CORE_SERVER_ANNOUNCE || id == PAKID_CORE_CLIENTID_CONFIRM || id
            == PAKID_CORE_CLIENT_NAME || id == PAKID_CORE_DEVICELIST_ANNOUNCE || id
            == PAKID_CORE_DEVICE_REPLY || id == PAKID_CORE_DEVICE_IOREQUEST || id
            == PAKID_CORE_DEVICE_IOCOMPLETION || id == PAKID_CORE_SERVER_CAPABILITY || id
            == PAKID_CORE_CLIENT_CAPABILITY || id == PAKID_CORE_DEVICELIST_REMOVE || id
            == PAKID_PRN_CACHE_DATA || id == PAKID_CORE_USER_LOGGEDON || id == PAKID_PRN_USING_XPS) {
            return Err(ErrorKind::Protocol);
        }
        Ok(SharedHeader { component, packet_id })
    }
}

/// The server announce, the client's reply to it, and the client id confirm.
#[derive(Clone, Copy, Debug, PartialEq, Eq, Structural)]
pub struct ClientIdMessage {
    pub version_major: u16,
    pub version_minor: u16,
    pub client_id: u32,
}

pub open spec fn spec_client_id_message(m: ClientIdMessage) -> Seq<u8> {
    spec_u16_to_le_bytes(m.version_major) + spec_u16_to_le_bytes(m.version_minor)
        + spec_u32_to_le_bytes(m.client_id)
}

impl ClientIdMessage {
    /// The client's reply to a server announce: this client's version, the
    /// server's client id echoed.
    pub fn new(req: ClientIdMessage) -> (r: ClientIdMessage)
        ensures
            r == (ClientIdMessage {
                version_major: VERSION_MAJOR,
                version_minor: VERSION_MINOR,
                client_id: req.client_id,
            }),
    {
        ClientIdMessage {
            version_major: VERSION_MAJOR,
            version_minor: VERSION_MINOR,
            client_id: req.client_id,
        }
    }

    pub fn encode(&self) -> (r: Vec<u8>)
        ensures
            r@ == spec_client_id_message(*self),
    {
        let mut w: Vec<u8> = Vec::new();
        push_u16(&mut w, self.version_major);
        push_u16(&mut w, self.version_minor);
        push_u32(&mut w, self.client_id);
        proof {
            assert(w@ =~= spec_client_id_message(*self));
        }
        w
    }

    /// Reads the message at `pos`.
    pub fn decode(b: &Vec<u8>, pos: usize) -> (r: RdpResult<ClientIdMessage>)
        ensures
            pos + 8 > b@.len() ==> r == Err::<ClientIdMessage, ErrorKind>(ErrorKind::Protocol),
            pos + 8 <= b@.len() ==> r == Ok::<ClientIdMessage, ErrorKind>(
                ClientIdMessage {
                    version_major: u16_at(b@, pos as int),
                    version_minor: u16_at(b@, pos + 2),
                    client_id: u32_at(b@, pos + 4),
                },
            ),
    {
        if pos > b.len() || b.len() - pos < 8 {
            return Err(ErrorKind::Protocol);
        }
        Ok(
            ClientIdMessage {
                version_major: read_u16(b, pos).unwrap(),
                version_minor: read_u16(b, pos + 2).unwrap(),
                client_id: read_u32(b, pos + 4).unwrap(),
            },
        )
    }
}

/// The general capability set as this client sends it.
pub open spec fn spec_general_capability() -> Seq<u8> {
    spec_u16_to_le_bytes(CAP_GENERAL_TYPE) + spec_u16_to_le_bytes(44) + spec_u32_to_le_bytes(
        GENERAL_CAPABILITY_VERSION_02,
    ) + spec_u32_to_le_bytes(0) + spec_u32_to_le_bytes(0) + spec_u16_to_le_bytes(VERSION_MAJOR)
        + spec_u16_to_le_bytes(VERSION_MINOR) + spec_u32_to_le_bytes(0x7fff)
        + spec_u32_to_le_bytes(0) + spec_u32_to_le_bytes(0x3) + spec_u32_to_le_bytes(0)
        + spec_u32_to_le_bytes(0) + spec_u32_to_le_bytes(1)
}

/// An empty capability set: a header alone.
pub open spec fn spec_empty_capability(cap_type: u16, version: u32) -> Seq<u8> {
    spec_u16_to_le_bytes(cap_type) + spec_u16_to_le_bytes(8) + spec_u32_to_le_bytes(version)
}

/// The client core capability response: General and Smartcard, and Drive when
/// directory sharing is allowed.
pub open spec fn spec_capability_response(allow_directory_sharing: bool) -> Seq<u8> {
    let count: u16 = if allow_directory_sharing {
        3
    } else {
        2
    };
    let base = spec_u16_to_le_bytes(count) + spec_u16_to_le_bytes(0) + spec_general_capability()
        + spec_empty_capability(CAP_SMARTCARD_TYPE, SMARTCARD_CAPABILITY_VERSION_01);
    if allow_directory_sharing {
        base + spec_empty_capability(CAP_DRIVE_TYPE, DRIVE_CAPABILITY_VERSION_02)
    } else {
        base
    }
}

/// The capability sets this client announces.
pub struct ServerCoreCapabilityRequest {
    pub allow_directory_sharing: bool,
}

impl ServerCoreCapabilityRequest {
    pub fn new_response(allow_directory_sharing: bool) -> (r: ServerCoreCapabilityRequest)
        ensures
            r.allow_directory_sharing == allow_directory_sharing,
    {
        ServerCoreCapabilityRequest { allow_directory_sharing }
    }

    pub fn encode(&self) -> (r: Vec<u8>)
        ensures
            r@ == spec_capability_response(self.allow_directory_sharing),
    {
        let mut w: Vec<u8> = Vec::new();
        push_u16(&mut w, if self.allow_directory_sharing { 3 } else { 2 });
        push_u16(&mut w, 0);
        push_u16(&mut w, CAP_GENERAL_TYPE);
        push_u16(&mut w, 44);
        push_u32(&mut w, GENERAL_CAPABILITY_VERSION_02);
        push_u32(&mut w, 0);
        push_u32(&mut w, 0);
        push_u16(&mut w, VERSION_MAJOR);
        push_u16(&mut w, VERSION_MINOR);
        push_u32(&mut w, 0x7fff);
        push_u32(&mut w, 0);
        push_u32(&mut w, 0x3);
        push_u32(&mut w, 0);
        push_u32(&mut w, 0);
        push_u32(&mut w, 1);
        push_u16(&mut w, CAP_SMARTCARD_TYPE);
        push_u16(&mut w, 8);
        push_u32(&mut w, SMARTCARD_CAPABILITY_VERSION_01);
        if self.allow_directory_sharing {
            push_u16(&mut w, CAP_DRIVE_TYPE);
            push_u16(&mut w, 8);
            push_u32(&mut w, DRIVE_CAPABILITY_VERSION_02);
        }
        proof {
            assert(w@ =~= spec_capability_response(self.allow_directory_sharing));
        }
        w
    }
}

/// One device in a device list announce.
#[derive(Clone, Debug)]
pub struct DeviceAnnounceHeader {
    pub device_type: u32,
    pub device_id: u32,
    /// The preferred DOS name, as bytes.
    pub preferred_dos_name: Vec<u8>,
    pub device_data: Vec<u8>,
}

/// The DOS name field: at most 7 bytes of the name, NUL-padded to 8.
pub open spec fn spec_dos_name(name: Seq<u8>) -> Seq<u8> {
    let n = if name.len() > 7 {
        7
    } else {
        name.len() as int
    };
    name.subrange(0, n) + Seq::new((8 - n) as nat, |_i: int| 0u8)
}

pub open spec fn spec_device_announce(d: DeviceAnnounceHeader) -> Seq<u8> {
    spec_u32_to_le_bytes(d.device_type) + spec_u32_to_le_bytes(d.device_id) + spec_dos_name(
        d.preferred_dos_name@,
    ) + spec_u32_to_le_bytes(d.device_data@.len() as u32) + d.device_data@
}

impl DeviceAnnounceHeader {
    pub fn encode(&self) -> (r: Vec<u8>)
        requires
            self.device_data@.len() <= u32::MAX,
        ensures
            r@ == spec_device_announce(*self),
    {
        let mut w: Vec<u8> = Vec::new();
        push_u32(&mut w, self.device_type);
        push_u32(&mut w, self.device_id);
        let n: usize = if self.preferred_dos_name.len() > 7 {
            7
        } else {
            self.preferred_dos_name.len()
        };
        crate::wire::push_range(&mut w, &self.preferred_dos_name, 0, n);
        push_zeros(&mut w, 8 - n);
        push_u32(&mut w, self.device_data.len() as u32);
        push_all(&mut w, &self.device_data);
        proof {
            assert(w@ =~= spec_device_announce(*self));
        }
        w
    }
}

/// A client device list announce.
#[derive(Clone, Debug)]
pub struct ClientDeviceListAnnounceRequest {
    pub device_list: Vec<DeviceAnnounceHeader>,
}

pub open spec fn spec_device_list(devices: Seq<DeviceAnnounceHeader>) -> Seq<u8>
    decreases devices.len(),
{
    if devices.len() == 0 {
        Seq::empty()
    } else {
        spec_device_list(devices.drop_last()) + spec_device_announce(devices.last())
    }
}

impl ClientDeviceListAnnounceRequest {
    /// Announces the smart card, under its fixed DOS name "SCARD".
    pub fn new_smartcard(device_id: u32) -> (r: ClientDeviceListAnnounceRequest)
        ensures
            r.device_list@.len() == 1,
            r.device_list@[0].device_type == RDPDR_DTYP_SMARTCARD,
            r.device_list@[0].device_id == device_id,
            r.device_list@[0].preferred_dos_name@ == seq![83u8, 67, 65, 82, 68],
            r.device_list@[0].device_data@.len() == 0,
    {
        let name: Vec<u8> = vec![83u8, 67, 65, 82, 68];
        let r = ClientDeviceListAnnounceRequest {
            device_list: vec![
                DeviceAnnounceHeader {
                    device_type: RDPDR_DTYP_SMARTCARD,
                    device_id,
                    preferred_dos_name: name,
                    device_data: Vec::new(),
                },
            ],
        };
        assert(r.device_list@[0].preferred_dos_name@ =~= seq![83u8, 67, 65, 82, 68]);
        r
    }

    /// Announces a shared directory as a drive: its device data is the name's
    /// UTF-8 bytes, with no NUL, and so is its DOS name.
    pub fn new_drive(device_id: u32, drive_name: String) -> (r: ClientDeviceListAnnounceRequest)
        ensures
            r.device_list@.len() == 1,
            r.device_list@[0].device_type == RDPDR_DTYP_FILESYSTEM,
            r.device_list@[0].device_id == device_id,
            r.device_list@[0].preferred_dos_name@ == vstd::utf8::encode_utf8(drive_name@),
            r.device_list@[0].device_data@ == vstd::utf8::encode_utf8(drive_name@),
    {
        let bytes = drive_name.as_str().as_bytes();
        let mut data: Vec<u8> = Vec::new();
        let mut i: usize = 0;
        while i < bytes.len()
            invariant
                i <= bytes@.len(),
                data@ == bytes@.subrange(0, i as int),
            decreases bytes@.len() - i,
        {
            data.push(bytes[i]);
            proof {
                assert(data@ =~= bytes@.subrange(0, i + 1));
            }
            i = i + 1;
        }
        proof {
            assert(data@ =~= bytes@);
        }
        let name = data.clone();
        proof {
            assert(name@ =~= data@);
        }
        ClientDeviceListAnnounceRequest {
            device_list: vec![
                DeviceAnnounceHeader {
                    device_type: RDPDR_DTYP_FILESYSTEM,
                    device_id,
                    preferred_dos_name: name,
                    device_data: data,
                },
            ],
        }
    }

    pub fn new_empty() -> (r: ClientDeviceListAnnounceRequest)
        ensures
            r.device_list@.len() == 0,
    {
        ClientDeviceListAnnounceRequest { device_list: Vec::new() }
    }

    pub fn encode(&self) -> (r: Vec<u8>)
        requires
            self.device_list@.len() <= u32::MAX,
            forall|i: int|
                0 <= i < self.device_list@.len() ==> #[trigger] self.device_list@[i].device_data@.len()
                    <= u32::MAX,
        ensures
            r@ == spec_u32_to_le_bytes(self.device_list@.len() as u32) + spec_device_list(
                self.device_list@,
            ),
    {
        let mut w: Vec<u8> = Vec::new();
        push_u32(&mut w, self.device_list.len() as u32);
        let ghost head = w@;
        let mut i: usize = 0;
        while i < self.device_list.len()
            invariant
                i <= self.device_list@.len(),
                forall|j: int|
                    0 <= j < self.device_list@.len() ==> #[trigger] self.device_list@[j].device_data@.len()
                        <= u32::MAX,
                w@ == head + spec_device_list(self.device_list@.subrange(0, i as int)),
            decreases self.device_list@.len() - i,
        {
            let b = self.device_list[i].encode();
            push_all(&mut w, &b);
            proof {
                let s = self.device_list@.subrange(0, i + 1);
                assert(s.drop_last() =~= self.device_list@.subrange(0, i as int));
                assert(w@ =~= head + spec_device_list(s));
            }
            i = i + 1;
        }
        proof {
            assert(self.device_list@.subrange(0, self.device_list@.len() as int) =~= self.device_list@);
        }
        w
    }
}

/// The client name request: ASCII, code page 0, the NUL-terminated name.
pub open spec fn spec_client_name(name: Seq<u8>) -> Seq<u8> {
    spec_u32_to_le_bytes(0) + spec_u32_to_le_bytes(0) + spec_u32_to_le_bytes(
        (name.len() + 1) as u32,
    ) + name.push(0)
}

/// The computer name this client gives: "teleport".
pub open spec fn directory_share_client_name() -> Seq<u8> {
    seq![116u8, 101, 108, 101, 112, 111, 114, 116]
}

pub fn encode_client_name_request() -> (r: Vec<u8>)
    ensures
        r@ == spec_client_name(directory_share_client_name()),
{
    let name: Vec<u8> = vec![116u8, 101, 108, 101, 112, 111, 114, 116];
    let mut w: Vec<u8> = Vec::new();
    push_u32(&mut w, 0);
    push_u32(&mut w, 0);
    push_u32(&mut w, 9);
    push_all(&mut w, &name);
    push_u8(&mut w, 0);
    proof {
        assert(w@ =~= spec_client_name(directory_share_client_name()));
    }
    w
}

/// The server's reply to a device announce.
#[derive(Clone, Copy, Debug, PartialEq, Eq, Structural)]
pub struct ServerDeviceAnnounceResponse {
    pub device_id: u32,
    pub result_code: u32,
}

impl ServerDeviceAnnounceResponse {
    pub fn decode(b: &Vec<u8>, pos: usize) -> (r: RdpResult<ServerDeviceAnnounceResponse>)
        ensures
            pos + 8 > b@.len() ==> r == Err::<ServerDeviceAnnounceResponse, ErrorKind>(
                ErrorKind::Protocol,
            ),
            pos + 8 <= b@.len() ==> r == Ok::<ServerDeviceAnnounceResponse, ErrorKind>(
                ServerDeviceAnnounceResponse {
                    device_id: u32_at(b@, pos as int),
                    result_code: u32_at(b@, pos + 4),
                },
            ),
    {
        if pos > b.len() || b.len() - pos < 8 {
            return Err(ErrorKind::Protocol);
        }
        Ok(
            ServerDeviceAnnounceResponse {
                device_id: read_u32(b, pos).unwrap(),
                result_code: read_u32(b, pos + 4).unwrap(),
            },
        )
    }
}

/// Whether a major function code is one that this client knows.
pub open spec fn is_known_major(m: u32) -> bool {
    m == IRP_MJ_CREATE || m == IRP_MJ_CLOSE || m == IRP_MJ_READ || m == IRP_MJ_WRITE || m
        == IRP_MJ_QUERY_INFORMATION || m == IRP_MJ_SET_INFORMATION || m
        == IRP_MJ_QUERY_VOLUME_INFORMATION || m == IRP_MJ_SET_VOLUME_INFORMATION || m
        == IRP_MJ_DIRECTORY_CONTROL || m == IRP_MJ_DEVICE_CONTROL || m == IRP_MJ_LOCK_CONTROL
}

/// The header of a device I/O request.
#[derive(Clone, Copy, Debug, PartialEq, Eq, Structural)]
pub struct DeviceIoRequest {
    pub device_id: u32,
    pub file_id: u32,
    pub completion_id: u32,
    pub major_function: u32,
    pub minor_function: u32,
}

/// The minor function as read: meaningful only for directory control, zero
/// otherwise whatever the wire holds.
pub open spec fn effective_minor(major: u32, minor: u32) -> u32 {
    if major == IRP_MJ_DIRECTORY_CONTROL {
        minor
    } else {
        0
    }
}

pub open spec fn spec_decode_io_request(b: Seq<u8>, pos: int) -> Option<DeviceIoRequest> {
    if pos + 20 > b.len() || !is_known_major(u32_at(b, pos + 12)) {
        None
    } else {
        let major = u32_at(b, pos + 12);
        let minor = effective_minor(major, u32_at(b, pos + 16));
        if minor > 2 {
            None
        } else {
            Some(
                DeviceIoRequest {
                    device_id: u32_at(b, pos),
                    file_id: u32_at(b, pos + 4),
                    completion_id: u32_at(b, pos + 8),
                    major_function: major,
                    minor_function: minor,
                },
            )
        }
    }
}

impl DeviceIoRequest {
    /// Reads the header at `pos`; an unknown major or minor function is refused.
    pub fn decode(b: &Vec<u8>, pos: usize) -> (r: RdpResult<DeviceIoRequest>)
        ensures
            r matches Ok(req) ==> spec_decode_io_request(b@, pos as int) == Some(req),
            r is Err ==> spec_decode_io_request(b@, pos as int) is None && r == Err::<
                DeviceIoRequest,
                ErrorKind,
            >(ErrorKind::Protocol),
    {
        if pos > b.len() || b.len() - pos < 20 {
            return Err(ErrorKind::Protocol);
        }
        let device_id = read_u32(b, pos).unwrap();
        let file_id = read_u32(b, pos + 4).unwrap();
        let completion_id = read_u32(b, pos + 8).unwrap();
        let major = read_u32(b, pos + 12).unwrap();
        let wire_minor = read_u32(b, pos + 16).unwrap();
        if !(major == IRP_MJ_CREATE || major == IRP_MJ_CLOSE || major == IRP_MJ_READ || major
            == IRP_MJ_WRITE || major == IRP_MJ_QUERY_INFORMATION || major == IRP_MJ_SET_INFORMATION
            || major == IRP_MJ_QUERY_VOLUME_INFORMATION || major == IRP_MJ_SET_VOLUME_INFORMATION
            || major == IRP_MJ_DIRECTORY_CONTROL || major == IRP_MJ_DEVICE_CONTROL || major
            == IRP_MJ_LOCK_CONTROL) {
            return Err(ErrorKind::Protocol);
        }
        let minor = if major == IRP_MJ_DIRECTORY_CONTROL {
            wire_minor
        } else {
            0
        };
        if minor > 2 {
            return Err(ErrorKind::Protocol);
        }
        Ok(
            DeviceIoRequest {
                device_id,
                file_id,
                completion_id,
                major_function: major,
                minor_function: minor,
            },
        )
    }
}

/// The header of a device I/O response.
pub open spec fn spec_io_response(req: DeviceIoRequest, io_status: u32) -> Seq<u8> {
    spec_u32_to_le_bytes(req.device_id) + spec_u32_to_le_bytes(req.completion_id)
        + spec_u32_to_le_bytes(io_status)
}

/// The header of a device I/O completion.
#[derive(Clone, Copy, Debug, PartialEq, Eq, Structural)]
pub struct DeviceIoResponse {
    pub device_id: u32,
    pub completion_id: u32,
    pub io_status: u32,
}

impl DeviceIoResponse {
    pub fn new(req: &DeviceIoRequest, io_status: u32) -> (r: DeviceIoResponse)
        ensures
            r == (DeviceIoResponse {
                device_id: req.device_id,
                completion_id: req.completion_id,
                io_status,
            }),
    {
        DeviceIoResponse { device_id: req.device_id, completion_id: req.completion_id, io_status }
    }

    pub fn encode(&self) -> (r: Vec<u8>)
        ensures
            r@ == spec_u32_to_le_bytes(self.device_id) + spec_u32_to_le_bytes(self.completion_id)
                + spec_u32_to_le_bytes(self.io_status),
    {
        let mut w: Vec<u8> = Vec::new();
        push_u32(&mut w, self.device_id);
        push_u32(&mut w, self.completion_id);
        push_u32(&mut w, self.io_status);
        proof {
            assert(w@ =~= spec_u32_to_le_bytes(self.device_id) + spec_u32_to_le_bytes(
                self.completion_id,
            ) + spec_u32_to_le_bytes(self.io_status));
        }
        w
    }
}

/// Starts a response with the I/O response header for `req`.
pub fn io_response(req: &DeviceIoRequest, io_status: u32) -> (r: Vec<u8>)
    ensures
        r@ == spec_io_response(*req, io_status),
{
    DeviceIoResponse::new(req, io_status).encode()
}

/// A device control request: the buffer lengths and the control code.
#[derive(Clone, Copy, Debug, PartialEq, Eq, Structural)]
pub struct DeviceControlRequest {
    pub header: DeviceIoRequest,
    pub output_buffer_length: u32,
    pub input_buffer_length: u32,
    pub io_control_code: u32,
}

impl DeviceControlRequest {
    /// Reads the fields at `pos`, followed by 20 bytes of padding.
    pub fn decode(header: DeviceIoRequest, b: &Vec<u8>, pos: usize) -> (r: RdpResult<
        DeviceControlRequest,
    >)
        ensures
            pos + 32 > b@.len() ==> r == Err::<DeviceControlRequest, ErrorKind>(ErrorKind::Protocol),
            pos + 32 <= b@.len() ==> r == Ok::<DeviceControlRequest, ErrorKind>(
                DeviceControlRequest {
                    header,
                    output_buffer_length: u32_at(b@, pos as int),
                    input_buffer_length: u32_at(b@, pos + 4),
                    io_control_code: u32_at(b@, pos + 8),
                },
            ),
    {
        if pos > b.len() || b.len() - pos < 32 {
            return Err(ErrorKind::Protocol);
        }
        Ok(
            DeviceControlRequest {
                header,
                output_buffer_length: read_u32(b, pos).unwrap(),
                input_buffer_length: read_u32(b, pos + 4).unwrap(),
                io_control_code: read_u32(b, pos + 8).unwrap(),
            },
        )
    }
}

pub open spec fn spec_device_control_response(
    req: DeviceIoRequest,
    io_status: u32,
    output: Seq<u8>,
) -> Seq<u8> {
    spec_io_response(req, io_status) + spec_u32_to_le_bytes(output.len() as u32) + output
}

/// The completion of a device control request: the header and the output buffer.
pub struct DeviceControlResponse {
    pub header: DeviceIoResponse,
    pub output_buffer: Vec<u8>,
}

impl DeviceControlResponse {
    pub fn new(req: &DeviceControlRequest, io_status: u32, output: Vec<u8>) -> (r:
        DeviceControlResponse)
        ensures
            r.header == (DeviceIoResponse {
                device_id: req.header.device_id,
                completion_id: req.header.completion_id,
                io_status,
            }),
            r.output_buffer@ == output@,
    {
        DeviceControlResponse { header: DeviceIoResponse::new(&req.header, io_status), output_buffer: output }
    }

    pub fn encode(&self) -> (r: Vec<u8>)
        requires
            self.output_buffer@.len() <= u32::MAX,
        ensures
            r@ == spec_u32_to_le_bytes(self.header.device_id) + spec_u32_to_le_bytes(
                self.header.completion_id,
            ) + spec_u32_to_le_bytes(self.header.io_status) + spec_u32_to_le_bytes(
                self.output_buffer@.len() as u32,
            ) + self.output_buffer@,
    {
        let mut w = self.header.encode();
        push_u32(&mut w, self.output_buffer.len() as u32);
        push_all(&mut w, &self.output_buffer);
        w
    }
}

/// The fields of a create request that the drive client uses.
#[derive(Clone, Debug)]
pub struct DeviceCreateRequest {
    pub device_io_request: DeviceIoRequest,
    pub desired_access: u32,
    pub allocation_size: u64,
    pub file_attributes: u32,
    pub shared_access: u32,
    pub create_disposition: u32,
    pub create_options: u32,
    /// The Windows path, as UTF-16 code units up to its NUL.
    pub path: Vec<u16>,
}

pub open spec fn create_request_ok(b: Seq<u8>, pos: int) -> bool {
    pos + 32 <= b.len() && u32_at(b, pos + 20) <= FILE_OVERWRITE_IF && pos + 32 + u32_at(
        b,
        pos + 28,
    ) <= b.len()
}

impl DeviceCreateRequest {
    /// Reads a create request whose fields start at `pos`; the disposition must
    /// be one of the six defined ones.
    pub fn decode(device_io_request: DeviceIoRequest, b: &Vec<u8>, pos: usize) -> (r: RdpResult<
        DeviceCreateRequest,
    >)
        ensures
            !create_request_ok(b@, pos as int) ==> r is Err,
            r is Err ==> r == Err::<DeviceCreateRequest, ErrorKind>(ErrorKind::Protocol),
            create_request_ok(b@, pos as int) ==> (r matches Ok(c) && c.device_io_request
                == device_io_request && c.desired_access == u32_at(b@, pos as int)
                && c.allocation_size == u64_at(b@, pos + 4) && c.file_attributes == u32_at(
                b@,
                pos + 12,
            ) && c.shared_access == u32_at(b@, pos + 16) && c.create_disposition == u32_at(
                b@,
                pos + 20,
            ) && c.create_options == u32_at(b@, pos + 24) && c.path@ == bounded_units(
                b@,
                pos + 32,
                pos + 32 + u32_at(b@, pos + 28),
            )),
    {
        if pos > b.len() || b.len() - pos < 32 {
            return Err(ErrorKind::Protocol);
        }
        let desired_access = read_u32(b, pos).unwrap();
        let allocation_size = read_u64(b, pos + 4).unwrap();
        let file_attributes = read_u32(b, pos + 12).unwrap();
        let shared_access = read_u32(b, pos + 16).unwrap();
        let create_disposition = read_u32(b, pos + 20).unwrap();
        let create_options = read_u32(b, pos + 24).unwrap();
        let path_length = read_u32(b, pos + 28).unwrap();
        if create_disposition > FILE_OVERWRITE_IF || path_length as usize > b.len() - pos - 32 {
            return Err(ErrorKind::Protocol);
        }
        let path = read_bounded_units(b, pos + 32, pos + 32 + path_length as usize);
        Ok(
            DeviceCreateRequest {
                device_io_request,
                desired_access,
                allocation_size,
                file_attributes,
                shared_access,
                create_disposition,
                create_options,
                path,
            },
        )
    }
}

/// The Information field of a create response: FILE_SUPERSEDED on any failure
/// and for SUPERSEDE, OPEN, CREATE and OVERWRITE; FILE_OPENED for OPEN_IF;
/// FILE_OVERWRITTEN for OVERWRITE_IF.
pub open spec fn spec_create_information(disposition: u32, io_status: u32) -> u8 {
    if io_status != STATUS_SUCCESS {
        FILE_SUPERSEDED
    } else if disposition == FILE_OPEN_IF {
        FILE_OPENED
    } else if disposition == FILE_OVERWRITE_IF {
        FILE_OVERWRITTEN
    } else {
        FILE_SUPERSEDED
    }
}

pub fn create_information(disposition: u32, io_status: u32) -> (r: u8)
    ensures
        r == spec_create_information(disposition, io_status),
{
    if io_status != STATUS_SUCCESS {
        FILE_SUPERSEDED
    } else if disposition == FILE_OPEN_IF {
        FILE_OPENED
    } else if disposition == FILE_OVERWRITE_IF {
        FILE_OVERWRITTEN
    } else {
        FILE_SUPERSEDED
    }
}

pub open spec fn spec_create_response(req: DeviceIoRequest, disposition: u32, io_status: u32, file_id: u32) -> Seq<u8> {
    spec_io_response(req, io_status) + spec_u32_to_le_bytes(file_id) + seq![
        spec_create_information(disposition, io_status),
    ]
}

/// A create response.
pub struct DeviceCreateResponse {
    pub device_io_reply: DeviceIoResponse,
    pub file_id: u32,
    pub information: u8,
}

impl DeviceCreateResponse {
    pub fn new(req: &DeviceCreateRequest, io_status: u32, file_id: u32) -> (r: DeviceCreateResponse)
        ensures
            r.device_io_reply == (DeviceIoResponse {
                device_id: req.device_io_request.device_id,
                completion_id: req.device_io_request.completion_id,
                io_status,
            }),
            r.file_id == file_id,
            r.information == spec_create_information(req.create_disposition, io_status),
    {
        DeviceCreateResponse {
            device_io_reply: DeviceIoResponse::new(&req.device_io_request, io_status),
            file_id,
            information: create_information(req.create_disposition, io_status),
        }
    }

    pub fn encode(&self) -> (r: Vec<u8>)
        ensures
            r@ == spec_u32_to_le_bytes(self.device_io_reply.device_id) + spec_u32_to_le_bytes(
                self.device_io_reply.completion_id,
            ) + spec_u32_to_le_bytes(self.device_io_reply.io_status) + spec_u32_to_le_bytes(
                self.file_id,
            ) + seq![self.information],
    {
        let mut w = self.device_io_reply.encode();
        push_u32(&mut w, self.file_id);
        push_u8(&mut w, self.information);
        w
    }
}

/// Encodes the response to a create request.
pub fn encode_create_response(req: &DeviceCreateRequest, io_status: u32, file_id: u32) -> (r: Vec<u8>)
    ensures
        r@ == spec_create_response(req.device_io_request, req.create_disposition, io_status, file_id),
{
    let r = DeviceCreateResponse::new(req, io_status, file_id).encode();
    assert(r@ =~= spec_create_response(req.device_io_request, req.create_disposition, io_status, file_id));
    r
}

/// A close response: the header and four bytes of padding.
pub open spec fn spec_close_response(req: DeviceIoRequest, io_status: u32) -> Seq<u8> {
    spec_io_response(req, io_status) + spec_u32_to_le_bytes(0)
}

pub fn encode_close_response(req: &DeviceIoRequest, io_status: u32) -> (r: Vec<u8>)
    ensures
        r@ == spec_close_response(*req, io_status),
{
    let mut w = io_response(req, io_status);
    push_u32(&mut w, 0);
    w
}

/// A read request: how many bytes, from which offset.
#[derive(Clone, Copy, Debug, PartialEq, Eq, Structural)]
pub struct DeviceReadRequest {
    pub device_io_request: DeviceIoRequest,
    pub length: u32,
    pub offset: u64,
}

impl DeviceReadRequest {
    pub fn decode(device_io_request: DeviceIoRequest, b: &Vec<u8>, pos: usize) -> (r: RdpResult<
        DeviceReadRequest,
    >)
        ensures
            pos + 12 > b@.len() ==> r == Err::<DeviceReadRequest, ErrorKind>(ErrorKind::Protocol),
            pos + 12 <= b@.len() ==> r == Ok::<DeviceReadRequest, ErrorKind>(
                DeviceReadRequest {
                    device_io_request,
                    length: u32_at(b@, pos as int),
                    offset: u64_at(b@, pos + 4),
                },
            ),
    {
        if pos > b.len() || b.len() - pos < 12 {
            return Err(ErrorKind::Protocol);
        }
        Ok(
            DeviceReadRequest {
                device_io_request,
                length: read_u32(b, pos).unwrap(),
                offset: read_u64(b, pos + 4).unwrap(),
            },
        )
    }
}

pub open spec fn spec_read_response(req: DeviceIoRequest, io_status: u32, data: Seq<u8>) -> Seq<u8> {
    spec_io_response(req, io_status) + spec_u32_to_le_bytes(data.len() as u32) + data
}

pub fn encode_read_response(req: &DeviceIoRequest, io_status: u32, data: &Vec<u8>) -> (r: Vec<u8>)
    requires
        data@.len() <= u32::MAX,
    ensures
        r@ == spec_read_response(*req, io_status, data@),
{
    let mut w = io_response(req, io_status);
    push_u32(&mut w, data.len() as u32);
    push_all(&mut w, data);
    w
}

/// A write request: the offset and the bytes to write.
#[derive(Clone, Debug)]
pub struct DeviceWriteRequest {
    pub device_io_request: DeviceIoRequest,
    pub length: u32,
    pub offset: u64,
    pub write_data: Vec<u8>,
}

impl DeviceWriteRequest {
    /// Reads a write request: length, offset, 20 bytes of padding, then the data.
    pub fn decode(device_io_request: DeviceIoRequest, b: &Vec<u8>, pos: usize) -> (r: RdpResult<
        DeviceWriteRequest,
    >)
        ensures
            (pos + 32 > b@.len() || pos + 32 + u32_at(b@, pos as int) > b@.len()) ==> r
                == Err::<DeviceWriteRequest, ErrorKind>(ErrorKind::Protocol),
            !(pos + 32 > b@.len() || pos + 32 + u32_at(b@, pos as int) > b@.len()) ==> (r matches Ok(
                w,
            ) && w.device_io_request == device_io_request && w.length == u32_at(b@, pos as int)
                && w.offset == u64_at(b@, pos + 4) && w.write_data@ == b@.subrange(
                pos + 32,
                pos + 32 + u32_at(b@, pos as int),
            )),
    {
        if pos > b.len() || b.len() - pos < 32 {
            return Err(ErrorKind::Protocol);
        }
        let length = read_u32(b, pos).unwrap();
        let offset = read_u64(b, pos + 4).unwrap();
        if length as usize > b.len() - pos - 32 {
            return Err(ErrorKind::Protocol);
        }
        let write_data = copy_range(b, pos + 32, pos + 32 + length as usize);
        Ok(DeviceWriteRequest { device_io_request, length, offset, write_data })
    }
}

/// A write response: the header, the length written, and four bytes of padding.
#[derive(Clone, Copy, Debug, PartialEq, Eq, Structural)]
pub struct DeviceWriteResponse {
    pub device_io_reply: DeviceIoResponse,
    pub length: u32,
}

pub open spec fn spec_write_response(req: DeviceIoRequest, io_status: u32, length: u32) -> Seq<u8> {
    spec_io_response(req, io_status) + spec_u32_to_le_bytes(length) + spec_u32_to_le_bytes(0)
}

impl DeviceWriteResponse {
    pub fn new(req: &DeviceIoRequest, io_status: u32, length: u32) -> (r: DeviceWriteResponse)
        ensures
            r.device_io_reply == (DeviceIoResponse {
                device_id: req.device_id,
                completion_id: req.completion_id,
                io_status,
            }),
            r.length == length,
    {
        DeviceWriteResponse { device_io_reply: DeviceIoResponse::new(req, io_status), length }
    }

    pub fn encode(&self) -> (r: Vec<u8>)
        ensures
            r@ == spec_u32_to_le_bytes(self.device_io_reply.device_id) + spec_u32_to_le_bytes(
                self.device_io_reply.completion_id,
            ) + spec_u32_to_le_bytes(self.device_io_reply.io_status) + spec_u32_to_le_bytes(
                self.length,
            ) + spec_u32_to_le_bytes(0),
    {
        let mut w = self.device_io_reply.encode();
        push_u32(&mut w, self.length);
        push_u32(&mut w, 0);
        w
    }
}

pub fn encode_write_response(req: &DeviceIoRequest, io_status: u32, length: u32) -> (r: Vec<u8>)
    ensures
        r@ == spec_write_response(*req, io_status, length),
{
    let r = DeviceWriteResponse::new(req, io_status, length).encode();
    assert(r@ =~= spec_write_response(*req, io_status, length));
    r
}

/// The information class of a query information request.
pub fn decode_information_class(b: &Vec<u8>, pos: usize) -> (r: RdpResult<u32>)
    ensures
        pos + 4 > b@.len() ==> r == Err::<u32, ErrorKind>(ErrorKind::Protocol),
        pos + 4 <= b@.len() ==> r == Ok::<u32, ErrorKind>(u32_at(b@, pos as int)),
{
    match read_u32(b, pos) {
        Some(v) => Ok(v),
        None => Err(ErrorKind::Protocol),
    }
}

/// A query response carrying a record, or the header alone when it failed.
pub open spec fn spec_query_response(req: DeviceIoRequest, io_status: u32, record: Seq<u8>) -> Seq<u8> {
    if io_status == STATUS_UNSUCCESSFUL {
        spec_io_response(req, io_status)
    } else {
        spec_io_response(req, io_status) + spec_u32_to_le_bytes(record.len() as u32) + record
    }
}

pub fn encode_query_response(req: &DeviceIoRequest, io_status: u32, record: &Vec<u8>) -> (r: Vec<u8>)
    requires
        record@.len() <= u32::MAX,
    ensures
        r@ == spec_query_response(*req, io_status, record@),
{
    let mut w = io_response(req, io_status);
    if io_status != STATUS_UNSUCCESSFUL {
        push_u32(&mut w, record.len() as u32);
        push_all(&mut w, record);
    }
    w
}

/// A directory query response: the header, the record length, the record, and
/// one byte of padding after the last entry.
pub open spec fn spec_query_dir_response(req: DeviceIoRequest, io_status: u32, record: Seq<u8>) -> Seq<u8> {
    spec_io_response(req, io_status) + spec_u32_to_le_bytes(record.len() as u32) + record + if io_status
        == STATUS_NO_MORE_FILES {
        seq![0u8]
    } else {
        Seq::empty()
    }
}

pub fn encode_query_dir_response(req: &DeviceIoRequest, io_status: u32, record: &Vec<u8>) -> (r: Vec<u8>)
    requires
        record@.len() <= u32::MAX,
    ensures
        r@ == spec_query_dir_response(*req, io_status, record@),
{
    let mut w = io_response(req, io_status);
    push_u32(&mut w, record.len() as u32);
    push_all(&mut w, record);
    if io_status == STATUS_NO_MORE_FILES {
        push_u8(&mut w, 0);
    }
    proof {
        assert(w@ =~= spec_query_dir_response(*req, io_status, record@));
    }
    w
}

/// A volume query response: the header, the record length and the record.
pub open spec fn spec_query_volume_response(req: DeviceIoRequest, io_status: u32, record: Seq<u8>) -> Seq<u8> {
    spec_io_response(req, io_status) + spec_u32_to_le_bytes(record.len() as u32) + record
}

pub fn encode_query_volume_response(req: &DeviceIoRequest, io_status: u32, record: &Vec<u8>) -> (r: Vec<u8>)
    requires
        record@.len() <= u32::MAX,
    ensures
        r@ == spec_query_volume_response(*req, io_status, record@),
{
    let mut w = io_response(req, io_status);
    push_u32(&mut w, record.len() as u32);
    push_all(&mut w, record);
    w
}

/// A directory query: the information level, whether it is the initial query,
/// and on the initial query the path.
#[derive(Clone, Debug)]
pub struct ServerDriveQueryDirectoryRequest {
    pub device_io_request: DeviceIoRequest,
    pub file_info_class_lvl: u32,
    pub initial_query: u8,
    pub path: Vec<u16>,
}

pub open spec fn query_dir_request_ok(b: Seq<u8>, pos: int) -> bool {
    &&& pos + 5 <= b.len()
    &&& (u32_at(b, pos) == 1 || u32_at(b, pos) == 2 || u32_at(b, pos) == 3 || u32_at(b, pos) == 12)
    &&& b[pos + 4] != 0 ==> pos + 32 <= b.len() && pos + 32 + u32_at(b, pos + 5) <= b.len()
}

impl ServerDriveQueryDirectoryRequest {
    pub fn decode(device_io_request: DeviceIoRequest, b: &Vec<u8>, pos: usize) -> (r: RdpResult<
        ServerDriveQueryDirectoryRequest,
    >)
        ensures
            !query_dir_request_ok(b@, pos as int) ==> r == Err::<
                ServerDriveQueryDirectoryRequest,
                ErrorKind,
            >(ErrorKind::Protocol),
            query_dir_request_ok(b@, pos as int) ==> (r matches Ok(q) && q.device_io_request
                == device_io_request && q.file_info_class_lvl == u32_at(b@, pos as int)
                && q.initial_query == b@[pos + 4] && (q.initial_query != 0 ==> q.path@
                == bounded_units(b@, pos + 32, pos + 32 + u32_at(b@, pos + 5)))),
    {
        if pos > b.len() || b.len() - pos < 5 {
            return Err(ErrorKind::Protocol);
        }
        let level = read_u32(b, pos).unwrap();
        if !(level == 1 || level == 2 || level == 3 || level == 12) {
            return Err(ErrorKind::Protocol);
        }
        let initial_query = b[pos + 4];
        let mut path: Vec<u16> = Vec::new();
        if initial_query != 0 {
            if b.len() - pos < 32 {
                return Err(ErrorKind::Protocol);
            }
            let path_length = read_u32(b, pos + 5).unwrap();
            if path_length as usize > b.len() - pos - 32 {
                return Err(ErrorKind::Protocol);
            }
            path = read_bounded_units(b, pos + 32, pos + 32 + path_length as usize);
        }
        Ok(
            ServerDriveQueryDirectoryRequest {
                device_io_request,
                file_info_class_lvl: level,
                initial_query,
                path,
            },
        )
    }
}

/// The buffer of a set information request, by class.
#[derive(Clone, Debug)]
pub enum SetInformation {
    Basic,
    EndOfFile,
    Disposition { delete_pending: u8 },
    Rename { replace_if_exists: bool, file_name: Vec<u16> },
    Allocation,
}

/// The buffer size that a set information response reports.
pub open spec fn spec_set_info_size(info: SetInformation) -> nat {
    match info {
        SetInformation::Basic => 36,
        SetInformation::EndOfFile => 8,
        SetInformation::Disposition { .. } => 1,
        SetInformation::Rename { file_name, .. } => 6 + 2 * file_name@.len(),
        SetInformation::Allocation => 8,
    }
}

/// A set information request.
#[derive(Clone, Debug)]
pub struct ServerDriveSetInformationRequest {
    pub device_io_request: DeviceIoRequest,
    pub set_buffer: SetInformation,
}

impl ServerDriveSetInformationRequest {
    /// Reads a set information request: class, length, 24 bytes of padding,
    /// then the buffer of one of the five supported classes.
    pub fn decode(device_io_request: DeviceIoRequest, b: &Vec<u8>, pos: usize) -> (r: RdpResult<
        ServerDriveSetInformationRequest,
    >)
        ensures
            r matches Ok(q) ==> q.device_io_request == device_io_request && pos + 32 <= b@.len()
                && match q.set_buffer {
                SetInformation::Basic => u32_at(b@, pos as int) == 4,
                SetInformation::EndOfFile => u32_at(b@, pos as int) == 20,
                SetInformation::Allocation => u32_at(b@, pos as int) == 19,
                SetInformation::Disposition { delete_pending } => u32_at(b@, pos as int) == 13
                    && delete_pending == if u32_at(b@, pos + 4) == 0 {
                    1u8
                } else {
                    b@[pos + 32]
                },
                SetInformation::Rename { replace_if_exists, file_name } => u32_at(b@, pos as int)
                    == 10 && replace_if_exists == (b@[pos + 32] == 1) && file_name@ == bounded_units(
                    b@,
                    pos + 38,
                    pos + 38 + u32_at(b@, pos + 34),
                ),
            },
            r matches Ok(q) ==> spec_set_info_size(q.set_buffer) <= u32::MAX,
            r is Err ==> r == Err::<ServerDriveSetInformationRequest, ErrorKind>(ErrorKind::Protocol),
    {
        if pos > b.len() || b.len() - pos < 32 {
            return Err(ErrorKind::Protocol);
        }
        let level = read_u32(b, pos).unwrap();
        let length = read_u32(b, pos + 4).unwrap();
        let body = pos + 32;
        let set_buffer = if level == 4 {
            if b.len() - body < 36 {
                return Err(ErrorKind::Protocol);
            }
            SetInformation::Basic
        } else if level == 20 || level == 19 {
            if b.len() - body < 8 {
                return Err(ErrorKind::Protocol);
            }
            if level == 20 {
                SetInformation::EndOfFile
            } else {
                SetInformation::Allocation
            }
        } else if level == 13 {
            let delete_pending = if length == 0 {
                1u8
            } else {
                if b.len() - body < 1 {
                    return Err(ErrorKind::Protocol);
                }
                b[body]
            };
            SetInformation::Disposition { delete_pending }
        } else if level == 10 {
            if b.len() - body < 6 {
                return Err(ErrorKind::Protocol);
            }
            let replace_if_exists = b[body] == 1;
            let name_length = read_u32(b, body + 2).unwrap();
            if name_length > 0xffff_fff0u32 || name_length as usize > b.len() - body - 6 {
                return Err(ErrorKind::Protocol);
            }
            let file_name = read_bounded_units(b, body + 6, body + 6 + name_length as usize);
            proof {
                crate::wire::lemma_bounded_units_len(b@, body + 6, body + 6 + name_length as int);
            }
            SetInformation::Rename { replace_if_exists, file_name }
        } else {
            return Err(ErrorKind::Protocol);
        };
        Ok(ServerDriveSetInformationRequest { device_io_request, set_buffer })
    }
}

/// A set information response: the header, the buffer size, and four bytes of padding.
pub open spec fn spec_set_info_response(req: DeviceIoRequest, io_status: u32, size: nat) -> Seq<u8> {
    spec_io_response(req, io_status) + spec_u32_to_le_bytes(size as u32) + spec_u32_to_le_bytes(0)
}

pub fn set_info_size(info: &SetInformation) -> (r: u32)
    requires
        spec_set_info_size(*info) <= u32::MAX,
    ensures
        r == spec_set_info_size(*info) as u32,
{
    match info {
        SetInformation::Basic => 36,
        SetInformation::EndOfFile => 8,
        SetInformation::Disposition { .. } => 1,
        SetInformation::Rename { file_name, .. } => (6 + 2 * (file_name.len() as u64)) as u32,
        SetInformation::Allocation => 8,
    }
}

pub fn encode_set_info_response(req: &ServerDriveSetInformationRequest, io_status: u32) -> (r: Vec<u8>)
    requires
        spec_set_info_size(req.set_buffer) <= u32::MAX,
    ensures
        r@ == spec_set_info_response(req.device_io_request, io_status, spec_set_info_size(req.set_buffer)),
{
    let mut w = io_response(&req.device_io_request, io_status);
    push_u32(&mut w, set_info_size(&req.set_buffer));
    push_u32(&mut w, 0);
    w
}

/// The end of the capability set at `p`: a header of type 1 to 5, then for the
/// general set 36 bytes of fields (32 before version 2); the others are empty.
pub open spec fn capability_end(b: Seq<u8>, p: int) -> Option<int> {
    if p < 0 || p + 8 > b.len() {
        None
    } else {
        let t = u16_at(b, p);
        if !(1 <= t <= 5) {
            None
        } else if t == CAP_GENERAL_TYPE {
            let size: int = if u32_at(b, p + 4) == GENERAL_CAPABILITY_VERSION_02 {
                36
            } else {
                32
            };
            if p + 8 + size > b.len() {
                None
            } else {
                Some(p + 8 + size)
            }
        } else {
            Some(p + 8)
        }
    }
}

/// The end of `n` capability sets starting at `p`.
pub open spec fn capabilities_end(b: Seq<u8>, p: int, n: nat) -> Option<int>
    decreases n,
{
    if n == 0 {
        Some(p)
    } else {
        match capabilities_end(b, p, (n - 1) as nat) {
            None => None,
            Some(q) => capability_end(b, q),
        }
    }
}

/// Whether a server capability request at `pos` is well formed: a count, two
/// bytes of padding, then that many capability sets.
pub open spec fn server_capabilities_ok(b: Seq<u8>, pos: int) -> bool {
    pos + 4 <= b.len() && capabilities_end(b, pos + 4, u16_at(b, pos) as nat) is Some
}

/// Checks a server core capability request; its contents are not negotiated.
pub fn decode_server_capabilities(b: &Vec<u8>, pos: usize) -> (r: RdpResult<u16>)
    ensures
        server_capabilities_ok(b@, pos as int) ==> r == Ok::<u16, ErrorKind>(u16_at(b@, pos as int)),
        !server_capabilities_ok(b@, pos as int) ==> r == Err::<u16, ErrorKind>(ErrorKind::Protocol),
{
    if pos > b.len() || b.len() - pos < 4 {
        return Err(ErrorKind::Protocol);
    }
    let n = read_u16(b, pos).unwrap();
    let mut p: usize = pos + 4;
    let mut k: u16 = 0;
    while k < n
        invariant
            k <= n,
            n == u16_at(b@, pos as int),
            pos + 4 <= b@.len(),
            p <= b@.len(),
            capabilities_end(b@, pos + 4, k as nat) == Some(p as int),
        decreases n - k,
    {
        if b.len() - p < 8 {
            proof {
                lemma_capabilities_stop(b@, pos + 4, k as nat, n as nat);
            }
            return Err(ErrorKind::Protocol);
        }
        let t = read_u16(b, p).unwrap();
        let next: usize = if t == CAP_GENERAL_TYPE {
            let version = read_u32(b, p + 4).unwrap();
            let size: usize = if version == GENERAL_CAPABILITY_VERSION_02 { 36 } else { 32 };
            if b.len() - p - 8 < size {
                proof {
                    lemma_capabilities_stop(b@, pos + 4, k as nat, n as nat);
                }
                return Err(ErrorKind::Protocol);
            }
            p + 8 + size
        } else if 1 <= t && t <= 5 {
            p + 8
        } else {
            proof {
                lemma_capabilities_stop(b@, pos + 4, k as nat, n as nat);
            }
            return Err(ErrorKind::Protocol);
        };
        proof {
            assert(capabilities_end(b@, pos + 4, (k + 1) as nat) == capability_end(b@, p as int));
        }
        p = next;
        k = k + 1;
    }
    Ok(n)
}

proof fn lemma_capabilities_stop(b: Seq<u8>, p: int, k: nat, n: nat)
    requires
        k < n,
        capabilities_end(b, p, k) is Some,
        capability_end(b, capabilities_end(b, p, k).unwrap()) is None,
    ensures
        capabilities_end(b, p, n) is None,
    decreases n - k,
{
    if n > k + 1 {
        lemma_capabilities_stop(b, p, k, (n - 1) as nat);
    }
}

/// The chunks of an RDPDR message: the shared header with the CORE component,
/// then the payload, with no SHOW_PROTOCOL flag.
pub open spec fn spec_framed(packet_id: u16, payload: Seq<u8>) -> Seq<Seq<u8>> {
    spec_chunks(spec_shared_header(RDPDR_CTYP_CORE, packet_id) + payload, false)
}

/// Adds the shared header to a payload and splits it into channel chunks.
pub fn add_headers_and_chunkify(packet_id: u16, payload: &Vec<u8>) -> (r: Vec<Vec<u8>>)
    requires
        payload@.len() + 4 <= u32::MAX,
    ensures
        r.deep_view() == spec_framed(packet_id, payload@),
{
    let mut inner = SharedHeader::new(RDPDR_CTYP_CORE, packet_id).encode();
    proof {
        lemma_auto_spec_u16_to_from_le_bytes();
    }
    push_all(&mut inner, payload);
    encode_chunks(&inner, false)
}

fn append_all(out: &mut Vec<Vec<u8>>, msgs: Vec<Vec<u8>>)
    ensures
        final(out).deep_view() == old(out).deep_view() + msgs.deep_view(),
{
    let mut msgs = msgs;
    let ghost o = out.deep_view();
    let ghost m = msgs.deep_view();
    out.append(&mut msgs);
    assert(out.deep_view() =~= o + m);
}

/// What the RDPDR client hands back: PDUs to send on the channel, in order, a
/// request for the host, and a smart-card IOCTL for the smart-card adapter
/// (with the bytes of the message that follow its fixed fields).
pub struct RdpdrOutput {
    pub responses: Vec<Vec<u8>>,
    pub tdp: Option<TdpRequest>,
    pub smartcard: Option<(DeviceControlRequest, Vec<u8>)>,
}

impl RdpdrOutput {
    pub open spec fn is_empty(&self) -> bool {
        self.responses@.len() == 0 && self.tdp is None && self.smartcard is None
    }

    fn empty() -> (r: RdpdrOutput)
        ensures
            r.is_empty(),
    {
        RdpdrOutput { responses: Vec::new(), tdp: None, smartcard: None }
    }
}

/// Whether a drive output's reply fits a channel message.
fn reply_fits(o: &DriveOutput) -> (r: bool)
    ensures
        r == (o.reply matches Some(v) ==> v@.len() + 4 <= u32::MAX),
{
    match &o.reply {
        Some(v) => v.len() <= 0xffff_fffbusize,
        None => true,
    }
}

/// Frames a drive output: its reply as a device I/O completion.
fn frame_drive_output(o: DriveOutput) -> (r: RdpResult<RdpdrOutput>)
    ensures
        r matches Ok(out) ==> out.tdp == o.tdp && out.smartcard is None && match o.reply {
            Some(v) => out.responses.deep_view() == spec_framed(PAKID_CORE_DEVICE_IOCOMPLETION, v@),
            None => out.responses@.len() == 0,
        },
        r is Err ==> (o.reply matches Some(v) && v@.len() + 4 > u32::MAX),
{
    if !reply_fits(&o) {
        return Err(ErrorKind::Protocol);
    }
    let responses = match &o.reply {
        Some(v) => add_headers_and_chunkify(PAKID_CORE_DEVICE_IOCOMPLETION, v),
        None => Vec::new(),
    };
    Ok(RdpdrOutput { responses, tdp: o.tdp, smartcard: None })
}

/// The device redirection (RDPDR) client: negotiates with the server, announces
/// the smart card and shared drives, and routes device I/O.
pub struct Client {
    reassembler: Reassembler,
    dir: crate::dir::Client,
    active_device_ids: Vec<u32>,
}

impl Client {
    pub closed spec fn device_ids(&self) -> Seq<u32> {
        self.active_device_ids@
    }

    pub closed spec fn drive(&self) -> crate::dir::Client {
        self.dir
    }

    pub closed spec fn reassembly(&self) -> crate::vchan::ReassemblyState {
        self.reassembler@
    }

    /// Every announced device appears once.
    pub open spec fn wf(&self) -> bool {
        self.device_ids().no_duplicates()
    }

    pub fn new(allow_directory_sharing: bool) -> (r: Client)
        ensures
            r.wf(),
            r.device_ids().len() == 0,
            r.drive().sharing_allowed() == allow_directory_sharing,
    {
        Client {
            reassembler: Reassembler::new(),
            dir: crate::dir::Client::new(allow_directory_sharing),
            active_device_ids: Vec::new(),
        }
    }

    fn contains_device(&self, device_id: u32) -> (r: bool)
        ensures
            r == self.device_ids().contains(device_id),
    {
        let mut i: usize = 0;
        while i < self.active_device_ids.len()
            invariant
                i <= self.active_device_ids@.len(),
                forall|j: int| 0 <= j < i ==> self.active_device_ids@[j] != device_id,
            decreases self.active_device_ids@.len() - i,
        {
            if self.active_device_ids[i] == device_id {
                return true;
            }
            i = i + 1;
        }
        false
    }

    /// Records a newly announced device; a device announced twice is refused.
    pub fn push_active_device_id(&mut self, device_id: u32) -> (r: RdpResult<()>)
        requires
            old(self).wf(),
        ensures
            final(self).wf(),
            final(self).drive() == old(self).drive(),
            final(self).reassembly() == old(self).reassembly(),
            old(self).device_ids().contains(device_id) ==> r == Err::<(), ErrorKind>(ErrorKind::TdpMismatch)
                && final(self).device_ids() == old(self).device_ids(),
            !old(self).device_ids().contains(device_id) ==> r is Ok && final(self).device_ids()
                == old(self).device_ids().push(device_id),
    {
        if self.contains_device(device_id) {
            return Err(ErrorKind::TdpMismatch);
        }
        self.active_device_ids.push(device_id);
        proof {
            assert forall|i: int, j: int|
                0 <= i < j < self.active_device_ids@.len() implies self.active_device_ids@[i]
                != self.active_device_ids@[j] by {
                if j == self.active_device_ids@.len() - 1 {
                    assert(old(self).active_device_ids@[i] == self.active_device_ids@[i]);
                }
            }
        }
        Ok(())
    }

    /// The smart card's device id: the first device announced.
    pub fn get_scard_device_id(&self) -> (r: RdpResult<u32>)
        ensures
            self.device_ids().len() == 0 ==> r == Err::<u32, ErrorKind>(ErrorKind::Protocol),
            self.device_ids().len() > 0 ==> r == Ok::<u32, ErrorKind>(self.device_ids()[0]),
    {
        if self.active_device_ids.len() == 0 {
            return Err(ErrorKind::Protocol);
        }
        Ok(self.active_device_ids[0])
    }

    /// Announces a shared directory as a drive.
    pub fn write_client_device_list_announce(&mut self, req: &ClientDeviceListAnnounceRequest) -> (r: RdpResult<Vec<Vec<u8>>>)
        requires
            old(self).wf(),
            req.device_list@.len() == 1,
            req.device_list@[0].device_data@.len() <= 0xffff_0000,
        ensures
            final(self).wf(),
            final(self).drive() == old(self).drive(),
            old(self).device_ids().contains(req.device_list@[0].device_id) ==> r == Err::<Vec<Vec<u8>>, ErrorKind>(
                ErrorKind::TdpMismatch,
            ),
            !old(self).device_ids().contains(req.device_list@[0].device_id) ==> (r matches Ok(m) && m.deep_view()
                == spec_framed(
                PAKID_CORE_DEVICELIST_ANNOUNCE,
                spec_u32_to_le_bytes(1) + spec_device_list(req.device_list@),
            )) && final(self).device_ids() == old(self).device_ids().push(req.device_list@[0].device_id),
    {
        match self.push_active_device_id(req.device_list[0].device_id) {
            Ok(()) => {},
            Err(e) => return Err(e),
        }
        let body = req.encode();
        proof {
            lemma_device_list_len(req.device_list@);
        }
        Ok(add_headers_and_chunkify(PAKID_CORE_DEVICELIST_ANNOUNCE, &body))
    }
}

proof fn lemma_device_list_len(devices: Seq<DeviceAnnounceHeader>)
    requires
        devices.len() == 1,
        devices[0].device_data@.len() <= 0xffff_0000,
    ensures
        spec_u32_to_le_bytes(1) + spec_device_list(devices) == spec_u32_to_le_bytes(devices.len() as u32) + spec_device_list(devices),
        (spec_u32_to_le_bytes(1) + spec_device_list(devices)).len() <= 0xffff_0000 + 24,
{
    lemma_auto_spec_u32_to_from_le_bytes();
    reveal_with_fuel(spec_device_list, 2);
    assert(devices.drop_last() =~= Seq::<DeviceAnnounceHeader>::empty());
    let d = devices[0];
    let n = if d.preferred_dos_name@.len() > 7 {
        7
    } else {
        d.preferred_dos_name@.len() as int
    };
    assert(spec_dos_name(d.preferred_dos_name@).len() == 8);
}

/// The result is exactly one device I/O completion with this payload.
pub open spec fn completes(r: RdpResult<RdpdrOutput>, payload: Seq<u8>) -> bool {
    r matches Ok(o) && o.tdp is None && o.smartcard is None && o.responses.deep_view() == spec_framed(
        PAKID_CORE_DEVICE_IOCOMPLETION,
        payload,
    )
}

/// The result is a host request alone, with nothing sent to the server.
pub open spec fn asks_host(r: RdpResult<RdpdrOutput>) -> bool {
    r matches Ok(o) && o.tdp is Some && o.smartcard is None && o.responses@.len() == 0
}

/// How a drive IRP other than a device control is served, once directory
/// sharing is allowed and its header decodes: `pre` and `post` are the drive
/// client before and after it.
pub open spec fn drive_irp_routed(
    pre: crate::dir::Client,
    post: crate::dir::Client,
    msg: Seq<u8>,
    r: RdpResult<RdpdrOutput>,
) -> bool {
    let io = spec_decode_io_request(msg, 4).unwrap();
    let major = io.major_function;
    let known = pre.cache().contains_key(io.file_id);
    let level = u32_at(msg, 24);
    spec_decode_io_request(msg, 4) is Some && pre.sharing_allowed() ==> {
        &&& major == IRP_MJ_CREATE && create_request_ok(msg, 24) ==> asks_host(r)
            && post.info_table().contains_key(io.completion_id)
        &&& major == IRP_MJ_CREATE && !create_request_ok(msg, 24) ==> r == Err::<RdpdrOutput, ErrorKind>(
            ErrorKind::Protocol,
        )
        &&& major == IRP_MJ_CLOSE ==> post.cache() == pre.cache().remove(io.file_id) && if !known {
            completes(r, spec_close_response(io, STATUS_UNSUCCESSFUL))
        } else if !pre.cache()[io.file_id].delete_pending {
            completes(r, spec_close_response(io, STATUS_SUCCESS))
        } else {
            asks_host(r) && post.delete_table().contains_key(io.completion_id)
        }
        &&& major == IRP_MJ_READ && msg.len() >= 36 ==> if known {
            asks_host(r) && post.read_table().contains_key(io.completion_id)
        } else {
            completes(r, spec_read_response(io, STATUS_UNSUCCESSFUL, Seq::empty()))
        }
        &&& major == IRP_MJ_WRITE && msg.len() >= 56 && 56 + u32_at(msg, 24) <= msg.len() ==> if known {
            asks_host(r) && post.write_table().contains_key(io.completion_id)
        } else {
            completes(r, spec_write_response(io, STATUS_UNSUCCESSFUL, 0))
        }
        &&& major == IRP_MJ_QUERY_INFORMATION && msg.len() >= 28 ==> if !known {
            completes(r, spec_query_response(io, STATUS_UNSUCCESSFUL, Seq::empty()))
        } else if !crate::fsinfo::is_query_level(level) {
            completes(r, spec_query_response(io, STATUS_NOT_SUPPORTED, Seq::empty()))
        } else {
            let f = pre.cache()[io.file_id];
            completes(
                r,
                spec_query_response(
                    io,
                    STATUS_SUCCESS,
                    crate::fsinfo::spec_query_record(
                        level,
                        f.fso.last_modified,
                        f.fso.size,
                        f.fso.file_type,
                        f.delete_pending,
                    ),
                ),
            )
        }
        &&& major == IRP_MJ_QUERY_VOLUME_INFORMATION && msg.len() >= 28 ==> if !known {
            r == Err::<RdpdrOutput, ErrorKind>(ErrorKind::InvalidData)
        } else if crate::fsinfo::is_volume_level(level) {
            completes(
                r,
                spec_query_volume_response(
                    io,
                    STATUS_SUCCESS,
                    crate::fsinfo::spec_volume_record(
                        level,
                        crate::tdp::spec_windows_time(pre.cache()[io.file_id].fso.last_modified),
                    ),
                ),
            )
        } else {
            completes(r, spec_query_volume_response(io, STATUS_UNSUCCESSFUL, Seq::empty()))
        }
        &&& major == IRP_MJ_DIRECTORY_CONTROL && io.minor_function == IRP_MN_QUERY_DIRECTORY ==> {
            let ok = query_dir_request_ok(msg, 24);
            let dir = known && pre.cache()[io.file_id].fso.file_type == crate::tdp::FileType::Directory;
            &&& !ok ==> r == Err::<RdpdrOutput, ErrorKind>(ErrorKind::Protocol)
            &&& ok && !known ==> completes(r, spec_query_dir_response(io, STATUS_UNSUCCESSFUL, Seq::empty()))
            &&& ok && known && !dir ==> r == Err::<RdpdrOutput, ErrorKind>(ErrorKind::Protocol)
            &&& ok && dir && msg[28] != 0 ==> asks_host(r) && post.list_table().contains_key(io.completion_id)
            &&& ok && dir && msg[28] == 0 ==> {
                let next = crate::dir::listing_next(crate::dir::listing_view(pre.cache()[io.file_id])).1;
                match r {
                    Ok(_) => completes(r, crate::dir::spec_listing_reply(io, level, next)),
                    Err(e) => e == ErrorKind::InvalidData && (next matches Some(x) && x.3.len()
                        > crate::dir::MAX_NAME_UNITS),
                }
            }
        }
        &&& major == IRP_MJ_DIRECTORY_CONTROL && io.minor_function == IRP_MN_NOTIFY_CHANGE_DIRECTORY ==> (r matches Ok(
            o,
        ) && o.is_empty())
        &&& major == IRP_MJ_DIRECTORY_CONTROL && io.minor_function != IRP_MN_NOTIFY_CHANGE_DIRECTORY
            && io.minor_function != IRP_MN_QUERY_DIRECTORY ==> completes(
            r,
            spec_query_dir_response(io, crate::rdpdr::STATUS_NOT_SUPPORTED, Seq::empty()),
        )
        &&& (major == IRP_MJ_LOCK_CONTROL || major == IRP_MJ_SET_VOLUME_INFORMATION) ==> r == Err::<
            RdpdrOutput,
            ErrorKind,
        >(ErrorKind::Unsupported)
    }
}

/// How the RDPDR client handles one reassembled message: `pre_ids` and
/// `pre_drive` are its devices and drive client before it, `post` the client
/// after it, and `r` the result.
pub open spec fn message_handled(
    pre_ids: Seq<u32>,
    pre_drive: crate::dir::Client,
    post: Client,
    msg: Seq<u8>,
    r: RdpResult<RdpdrOutput>,
) -> bool {
    let io = spec_decode_io_request(msg, 4).unwrap();
    let pid = u16_at(msg, 2);
    let core = msg.len() >= 4 && u16_at(msg, 0) == RDPDR_CTYP_CORE;
    &&& msg.len() < 4 ==> r is Err
    &&& !(core && pid == PAKID_CORE_CLIENTID_CONFIRM) ==> post.device_ids() == pre_ids
    &&& msg.len() >= 4 && !is_known_packet_id(pid) ==> r == Err::<RdpdrOutput, ErrorKind>(ErrorKind::Protocol)
    &&& msg.len() >= 4 && u16_at(msg, 0) == RDPDR_CTYP_PRN && is_known_packet_id(pid) ==> (r matches Ok(o)
        && o.is_empty()) && post.device_ids() == pre_ids
    &&& core && pid == PAKID_CORE_SERVER_ANNOUNCE && msg.len() >= 12 ==> (r matches Ok(o)
        && o.responses.deep_view() == announce_responses(u32_at(msg, 8)) && o.tdp is None)
    &&& core && pid == PAKID_CORE_SERVER_CAPABILITY && !server_capabilities_ok(msg, 4) ==> r == Err::<
        RdpdrOutput,
        ErrorKind,
    >(ErrorKind::Protocol)
    &&& core && pid == PAKID_CORE_SERVER_CAPABILITY && server_capabilities_ok(msg, 4) ==> (r matches Ok(o)
        && o.responses.deep_view() == spec_framed(
        PAKID_CORE_CLIENT_CAPABILITY,
        spec_capability_response(pre_drive.sharing_allowed()),
    ))
    &&& core && pid == PAKID_CORE_CLIENTID_CONFIRM && msg.len() >= 12 ==> (r matches Ok(o) && o.tdp is None
        && o.smartcard is None && if pre_ids.contains(SCARD_DEVICE_ID) {
        o.responses.deep_view() == spec_framed(PAKID_CORE_DEVICELIST_ANNOUNCE, spec_u32_to_le_bytes(0))
            && post.device_ids() == pre_ids
    } else {
        o.responses.deep_view() == spec_framed(PAKID_CORE_DEVICELIST_ANNOUNCE, smartcard_announce_body())
            && post.device_ids() == pre_ids.push(SCARD_DEVICE_ID)
    })
    &&& core && pid == PAKID_CORE_DEVICE_REPLY && msg.len() >= 12 && !pre_ids.contains(
        u32_at(msg, 4),
    ) ==> r == Err::<RdpdrOutput, ErrorKind>(ErrorKind::Protocol)
    &&& core && pid == PAKID_CORE_DEVICE_REPLY && msg.len() >= 12 && pre_ids.contains(u32_at(msg, 4))
        ==> (r matches Ok(o) && o.responses@.len() == 0 && o.smartcard is None && if u32_at(msg, 4)
        == pre_ids[0] {
        o.tdp is None
    } else {
        o.tdp == Some(
            TdpRequest::Acknowledge(
                crate::tdp::SharedDirectoryAcknowledge {
                    err_code: if u32_at(msg, 8) == STATUS_SUCCESS {
                        crate::tdp::TdpErrCode::Nil
                    } else {
                        crate::tdp::TdpErrCode::Failed
                    },
                    directory_id: u32_at(msg, 4),
                },
            ),
        )
    })
    &&& core && pid == PAKID_CORE_DEVICE_IOREQUEST && msg.len() >= 56 && spec_decode_io_request(msg, 4) is Some
        && io.major_function == IRP_MJ_DEVICE_CONTROL && pre_ids.len() > 0 ==> if io.device_id
        == pre_ids[0] {
        r matches Ok(o) && o.responses@.len() == 0 && o.tdp is None && (o.smartcard matches Some((c, rest))
            && c.header == io && c.output_buffer_length == u32_at(msg, 24) && c.input_buffer_length
            == u32_at(msg, 28) && c.io_control_code == u32_at(msg, 32) && rest@ == msg.subrange(
            56,
            msg.len() as int,
        ))
    } else if pre_drive.sharing_allowed() {
        r matches Ok(o) && o.tdp is None && o.smartcard is None && o.responses.deep_view() == spec_framed(
            PAKID_CORE_DEVICE_IOCOMPLETION,
            spec_io_response(io, STATUS_SUCCESS) + spec_u32_to_le_bytes(0),
        )
    } else {
        r == Err::<RdpdrOutput, ErrorKind>(ErrorKind::Protocol)
    }
    &&& core && pid == PAKID_CORE_DEVICE_IOREQUEST ==> drive_irp_routed(pre_drive, post.drive(), msg, r)
    &&& core && pid == PAKID_CORE_DEVICE_IOREQUEST && msg.len() >= 24 && u32_at(msg, 16)
        != IRP_MJ_DEVICE_CONTROL && !pre_drive.sharing_allowed() ==> r == Err::<RdpdrOutput, ErrorKind>(
        ErrorKind::Protocol,
    ) && post.drive() == pre_drive
}

/// The device list announce body that announces the smart card: one device of
/// type SMARTCARD under its id, DOS name "SCARD", no device data.
pub open spec fn smartcard_announce_body() -> Seq<u8> {
    spec_u32_to_le_bytes(1) + spec_u32_to_le_bytes(RDPDR_DTYP_SMARTCARD) + spec_u32_to_le_bytes(
        SCARD_DEVICE_ID,
    ) + seq![83u8, 67, 65, 82, 68, 0, 0, 0] + spec_u32_to_le_bytes(0)
}

proof fn lemma_smartcard_body(devices: Seq<DeviceAnnounceHeader>)
    requires
        devices.len() == 1,
        devices[0].device_type == RDPDR_DTYP_SMARTCARD,
        devices[0].device_id == SCARD_DEVICE_ID,
        devices[0].preferred_dos_name@ == seq![83u8, 67, 65, 82, 68],
        devices[0].device_data@.len() == 0,
    ensures
        spec_u32_to_le_bytes(devices.len() as u32) + spec_device_list(devices) == smartcard_announce_body(),
{
    reveal_with_fuel(spec_device_list, 2);
    assert(devices.drop_last() =~= Seq::<DeviceAnnounceHeader>::empty());
    let name = devices[0].preferred_dos_name@;
    assert(spec_dos_name(name) =~= seq![83u8, 67, 65, 82, 68, 0, 0, 0]);
    assert(spec_u32_to_le_bytes(devices.len() as u32) + spec_device_list(devices) =~= smartcard_announce_body());
}

/// The replies to a server announce: the announce reply echoing the client id,
/// then the client name request.
pub open spec fn announce_responses(client_id: u32) -> Seq<Seq<u8>> {
    spec_framed(
        PAKID_CORE_CLIENTID_CONFIRM,
        spec_client_id_message(
            ClientIdMessage { version_major: VERSION_MAJOR, version_minor: VERSION_MINOR, client_id },
        ),
    ) + spec_framed(PAKID_CORE_CLIENT_NAME, spec_client_name(directory_share_client_name()))
}

impl Client {
    /// Handles one reassembled RDPDR message.
    pub fn handle_message(&mut self, msg: &Vec<u8>) -> (r: RdpResult<RdpdrOutput>)
        requires
            old(self).wf(),
        ensures
            final(self).wf(),
            final(self).reassembly() == old(self).reassembly(),
            message_handled(old(self).device_ids(), old(self).drive(), *final(self), msg@, r),
    {
        let header = match SharedHeader::decode(msg) {
            Ok(h) => h,
            Err(e) => return Err(e),
        };
        if header.component == RDPDR_CTYP_PRN {
            return Ok(RdpdrOutput::empty());
        }
        let pid = header.packet_id;
        if pid == PAKID_CORE_SERVER_ANNOUNCE {
            let req = match ClientIdMessage::decode(msg, 4) {
                Ok(m) => m,
                Err(e) => return Err(e),
            };
            let reply = ClientIdMessage::new(req).encode();
            proof {
                lemma_auto_spec_u16_to_from_le_bytes();
                lemma_auto_spec_u32_to_from_le_bytes();
            }
            let mut responses = add_headers_and_chunkify(PAKID_CORE_CLIENTID_CONFIRM, &reply);
            let name = encode_client_name_request();
            append_all(&mut responses, add_headers_and_chunkify(PAKID_CORE_CLIENT_NAME, &name));
            Ok(RdpdrOutput { responses, tdp: None, smartcard: None })
        } else if pid == PAKID_CORE_SERVER_CAPABILITY {
            match decode_server_capabilities(msg, 4) {
                Ok(_) => {},
                Err(e) => return Err(e),
            }
            let caps = ServerCoreCapabilityRequest::new_response(self.dir.allow_directory_sharing()).encode();
            proof {
                lemma_auto_spec_u16_to_from_le_bytes();
                lemma_auto_spec_u32_to_from_le_bytes();
            }
            let responses = add_headers_and_chunkify(PAKID_CORE_CLIENT_CAPABILITY, &caps);
            Ok(RdpdrOutput { responses, tdp: None, smartcard: None })
        } else if pid == PAKID_CORE_CLIENTID_CONFIRM {
            match ClientIdMessage::decode(msg, 4) {
                Ok(_) => {},
                Err(e) => return Err(e),
            }
            let body = if !self.contains_device(SCARD_DEVICE_ID) {
                match self.push_active_device_id(SCARD_DEVICE_ID) {
                    Ok(()) => {},
                    Err(e) => return Err(e),
                }
                let announce = ClientDeviceListAnnounceRequest::new_smartcard(SCARD_DEVICE_ID);
                proof {
                    let ids = self.active_device_ids@;
                    assert(ids[ids.len() - 1] == SCARD_DEVICE_ID);
                    lemma_device_list_len(announce.device_list@);
                    lemma_smartcard_body(announce.device_list@);
                }
                announce.encode()
            } else {
                let announce = ClientDeviceListAnnounceRequest::new_empty();
                proof {
                    lemma_auto_spec_u32_to_from_le_bytes();
                    reveal_with_fuel(spec_device_list, 1);
                    assert(spec_device_list(announce.device_list@) =~= Seq::<u8>::empty());
                    assert(spec_u32_to_le_bytes(0) + Seq::<u8>::empty() =~= spec_u32_to_le_bytes(0));
                }
                announce.encode()
            };
            let responses = add_headers_and_chunkify(PAKID_CORE_DEVICELIST_ANNOUNCE, &body);
            Ok(RdpdrOutput { responses, tdp: None, smartcard: None })
        } else if pid == PAKID_CORE_DEVICE_REPLY {
            let res = match ServerDeviceAnnounceResponse::decode(msg, 4) {
                Ok(m) => m,
                Err(e) => return Err(e),
            };
            if !self.contains_device(res.device_id) {
                return Err(ErrorKind::Protocol);
            }
            let scard = match self.get_scard_device_id() {
                Ok(id) => id,
                Err(e) => return Err(e),
            };
            if res.device_id != scard {
                let o = self.dir.handle_device_reply(res);
                Ok(RdpdrOutput { responses: Vec::new(), tdp: o.tdp, smartcard: None })
            } else {
                Ok(RdpdrOutput::empty())
            }
        } else if pid == PAKID_CORE_DEVICE_IOREQUEST {
            self.handle_device_io_request(msg)
        } else {
            Ok(RdpdrOutput::empty())
        }
    }

    /// Routes a device I/O request by its major function. A drive IRP while
    /// directory sharing is disabled is refused.
    fn handle_device_io_request(&mut self, msg: &Vec<u8>) -> (r: RdpResult<RdpdrOutput>)
        requires
            old(self).wf(),
        ensures
            final(self).wf(),
            final(self).device_ids() == old(self).device_ids(),
            final(self).reassembly() == old(self).reassembly(),
            msg@.len() >= 24 && u32_at(msg@, 16) != IRP_MJ_DEVICE_CONTROL && !old(self).drive().sharing_allowed()
                ==> r == Err::<RdpdrOutput, ErrorKind>(ErrorKind::Protocol) && final(self).drive() == old(
                self,
            ).drive(),
            ({
                let io = spec_decode_io_request(msg@, 4).unwrap();
                msg@.len() >= 56 && spec_decode_io_request(msg@, 4) is Some && io.major_function
                    == IRP_MJ_DEVICE_CONTROL && old(self).device_ids().len() > 0 ==> if io.device_id
                    == old(self).device_ids()[0] {
                    r matches Ok(o) && o.responses@.len() == 0 && o.tdp is None && (o.smartcard matches Some(
                        (c, rest),
                    ) && c.header == io && c.output_buffer_length == u32_at(msg@, 24)
                        && c.input_buffer_length == u32_at(msg@, 28) && c.io_control_code == u32_at(
                        msg@,
                        32,
                    ) && rest@ == msg@.subrange(56, msg@.len() as int))
                } else if old(self).drive().sharing_allowed() {
                    r matches Ok(o) && o.tdp is None && o.smartcard is None && o.responses.deep_view()
                        == spec_framed(
                        PAKID_CORE_DEVICE_IOCOMPLETION,
                        spec_io_response(io, STATUS_SUCCESS) + spec_u32_to_le_bytes(0),
                    )
                } else {
                    r == Err::<RdpdrOutput, ErrorKind>(ErrorKind::Protocol)
                }
            }),
            drive_irp_routed(old(self).drive(), final(self).drive(), msg@, r),
    {
        proof {
            lemma_auto_spec_u32_to_from_le_bytes();
            lemma_auto_spec_u64_to_from_le_bytes();
            lemma_auto_spec_u16_to_from_le_bytes();
        }
        if msg.len() >= 24 {
            let major = read_u32(msg, 16).unwrap();
            if major != IRP_MJ_DEVICE_CONTROL && !self.dir.allow_directory_sharing() {
                return Err(ErrorKind::Protocol);
            }
        }
        let io = match DeviceIoRequest::decode(msg, 4) {
            Ok(io) => io,
            Err(e) => return Err(e),
        };
        let pos: usize = 4 + DEVICE_IO_REQUEST_LENGTH;
        let major = io.major_function;
        if major == IRP_MJ_DEVICE_CONTROL {
            let ioctl = match DeviceControlRequest::decode(io, msg, pos) {
                Ok(c) => c,
                Err(e) => return Err(e),
            };
            let is_smart_card_op = match self.get_scard_device_id() {
                Ok(id) => id == io.device_id,
                Err(e) => return Err(e),
            };
            if !is_smart_card_op && !self.dir.allow_directory_sharing() {
                return Err(ErrorKind::Protocol);
            }
            if is_smart_card_op {
                let rest = copy_range(msg, pos + 32, msg.len());
                return Ok(RdpdrOutput { responses: Vec::new(), tdp: None, smartcard: Some((ioctl, rest)) });
            }
            let o = self.dir.process_irp_device_control(&ioctl);
            proof {
                lemma_auto_spec_u32_to_from_le_bytes();
            }
            return frame_drive_output(o);
        }
        let out = if major == IRP_MJ_CREATE {
            let req = match DeviceCreateRequest::decode(io, msg, pos) {
                Ok(q) => q,
                Err(e) => return Err(e),
            };
            self.dir.process_irp_create(req)
        } else if major == IRP_MJ_CLOSE {
            self.dir.process_irp_close(io)
        } else if major == IRP_MJ_QUERY_INFORMATION {
            let level = match decode_information_class(msg, pos) {
                Ok(l) => l,
                Err(e) => return Err(e),
            };
            match self.dir.process_irp_query_information(io, level) {
                Ok(o) => o,
                Err(e) => return Err(e),
            }
        } else if major == IRP_MJ_DIRECTORY_CONTROL {
            if io.minor_function == IRP_MN_QUERY_DIRECTORY {
                let req = match ServerDriveQueryDirectoryRequest::decode(io, msg, pos) {
                    Ok(q) => q,
                    Err(e) => return Err(e),
                };
                proof {
                    let next = crate::dir::listing_next(crate::dir::listing_view(self.dir.cache()[io.file_id])).1;
                    if !(next matches Some(x) && x.3.len() > crate::dir::MAX_NAME_UNITS) {
                        crate::dir::lemma_listing_reply_len(io, req.file_info_class_lvl, next);
                    }
                }
                match self.dir.process_irp_directory_control(req) {
                    Ok(o) => o,
                    Err(e) => return Err(e),
                }
            } else {
                let req = ServerDriveQueryDirectoryRequest {
                    device_io_request: io,
                    file_info_class_lvl: crate::fsinfo::FILE_DIRECTORY_INFORMATION,
                    initial_query: 0,
                    path: Vec::new(),
                };
                match self.dir.process_irp_directory_control(req) {
                    Ok(o) => o,
                    Err(e) => return Err(e),
                }
            }
        } else if major == IRP_MJ_QUERY_VOLUME_INFORMATION {
            let level = match decode_information_class(msg, pos) {
                Ok(l) => l,
                Err(e) => return Err(e),
            };
            proof {
                crate::fsinfo::lemma_volume_record_len(
                    level,
                    crate::tdp::spec_windows_time(self.dir.cache()[io.file_id].fso.last_modified),
                );
            }
            match self.dir.process_irp_query_volume_information(io, level) {
                Ok(o) => o,
                Err(e) => return Err(e),
            }
        } else if major == IRP_MJ_READ {
            let req = match DeviceReadRequest::decode(io, msg, pos) {
                Ok(q) => q,
                Err(e) => return Err(e),
            };
            self.dir.process_irp_read(req)
        } else if major == IRP_MJ_WRITE {
            let req = match DeviceWriteRequest::decode(io, msg, pos) {
                Ok(q) => q,
                Err(e) => return Err(e),
            };
            self.dir.process_irp_write(req)
        } else if major == IRP_MJ_SET_INFORMATION {
            let req = match ServerDriveSetInformationRequest::decode(io, msg, pos) {
                Ok(q) => q,
                Err(e) => return Err(e),
            };
            self.dir.process_irp_set_information(req)
        } else {
            return Err(ErrorKind::Unsupported);
        };
        frame_drive_output(out)
    }

    /// Feeds one inbound chunk; once it completes a message, handles it.
    pub fn read_and_reply(&mut self, chunk: &Vec<u8>) -> (r: RdpResult<RdpdrOutput>)
        requires
            old(self).wf(),
        ensures
            final(self).wf(),
            reassembly_fails(old(self).reassembly(), chunk@) ==> r == Err::<RdpdrOutput, ErrorKind>(
                ErrorKind::Protocol,
            ) && final(self).drive() == old(self).drive(),
            !reassembly_fails(old(self).reassembly(), chunk@) ==> final(self).reassembly() == reassembly_next(
                old(self).reassembly(),
                chunk@,
            ),
            !reassembly_fails(old(self).reassembly(), chunk@) ==> match reassembly_output(
                old(self).reassembly(),
                chunk@,
            ) {
                None => (r matches Ok(o) && o.is_empty()) && final(self).drive() == old(self).drive()
                    && final(self).device_ids() == old(self).device_ids(),
                Some(msg) => message_handled(
                    old(self).device_ids(),
                    old(self).drive(),
                    *final(self),
                    msg,
                    r,
                ),
            },
    {
        match self.reassembler.reassemble(chunk) {
            Ok(Some(msg)) => self.handle_message(&msg),
            Ok(None) => Ok(RdpdrOutput::empty()),
            Err(e) => Err(e),
        }
    }

    pub fn handle_tdp_sd_info_response(&mut self, res: SharedDirectoryInfoResponse) -> (r: RdpResult<RdpdrOutput>)
        requires
            old(self).wf(),
        ensures
            final(self).wf(),
            !old(self).drive().info_table().contains_key(res.completion_id) ==> r == Err::<
                RdpdrOutput,
                ErrorKind,
            >(ErrorKind::TdpMismatch),
            old(self).drive().info_table().contains_key(res.completion_id) ==> match old(self).drive().info_table()[res.completion_id] {
                PendingInfo::Create(req) => if res.err_code == crate::tdp::TdpErrCode::Failed || res.err_code
                    == crate::tdp::TdpErrCode::AlreadyExists {
                    r == Err::<RdpdrOutput, ErrorKind>(ErrorKind::TdpOpFailed)
                } else {
                    match spec_create_action(
                        req.create_disposition,
                        res.err_code == crate::tdp::TdpErrCode::Nil,
                        res.fso.file_type,
                        req.create_options,
                    ) {
                        CreateAction::Fail(status) => completes(
                            r,
                            spec_create_response(req.device_io_request, req.create_disposition, status, 0),
                        ),
                        CreateAction::Open => completes(
                            r,
                            spec_create_response(
                                req.device_io_request,
                                req.create_disposition,
                                STATUS_SUCCESS,
                                spec_next_file_id(old(self).drive().last_file_id()),
                            ),
                        ),
                        _ => asks_host(r),
                    }
                },
                PendingInfo::Rename { req, .. } => spec_set_info_size(req.set_buffer) <= u32::MAX ==> (r is Ok),
            },
            final(self).device_ids() == old(self).device_ids(),
    {
        match self.dir.handle_tdp_sd_info_response(res) {
            Ok(o) => {
                proof {
                    lemma_auto_spec_u32_to_from_le_bytes();
                }
                frame_drive_output(o)
            },
            Err(e) => Err(e),
        }
    }

    pub fn handle_tdp_sd_create_response(&mut self, res: SharedDirectoryCreateResponse) -> (r: RdpResult<RdpdrOutput>)
        requires
            old(self).wf(),
        ensures
            final(self).wf(),
            !old(self).drive().create_table().contains_key(res.completion_id) ==> r == Err::<
                RdpdrOutput,
                ErrorKind,
            >(ErrorKind::TdpMismatch),
            old(self).drive().create_table().contains_key(res.completion_id) ==> ({
                let req = old(self).drive().create_table()[res.completion_id];
                if res.err_code == crate::tdp::TdpErrCode::Nil {
                    completes(
                        r,
                        spec_create_response(
                            req.device_io_request,
                            req.create_disposition,
                            STATUS_SUCCESS,
                            spec_next_file_id(old(self).drive().last_file_id()),
                        ),
                    )
                } else {
                    completes(
                        r,
                        spec_create_response(req.device_io_request, req.create_disposition, STATUS_UNSUCCESSFUL, 0),
                    )
                }
            }),
            final(self).device_ids() == old(self).device_ids(),
    {
        match self.dir.handle_tdp_sd_create_response(res) {
            Ok(o) => {
                proof {
                    lemma_auto_spec_u32_to_from_le_bytes();
                }
                frame_drive_output(o)
            },
            Err(e) => Err(e),
        }
    }

    pub fn handle_tdp_sd_delete_response(&mut self, res: SharedDirectoryDeleteResponse) -> (r: RdpResult<RdpdrOutput>)
        requires
            old(self).wf(),
        ensures
            final(self).wf(),
            !old(self).drive().delete_table().contains_key(res.completion_id) ==> r == Err::<
                RdpdrOutput,
                ErrorKind,
            >(ErrorKind::TdpMismatch),
            old(self).drive().delete_table().contains_key(res.completion_id) ==> match old(self).drive().delete_table()[res.completion_id] {
                PendingDelete::Close(io) => completes(
                    r,
                    spec_close_response(
                        io,
                        if res.err_code == crate::tdp::TdpErrCode::Nil {
                            STATUS_SUCCESS
                        } else {
                            STATUS_UNSUCCESSFUL
                        },
                    ),
                ),
                PendingDelete::Overwrite(req) => if res.err_code == crate::tdp::TdpErrCode::Nil {
                    asks_host(r)
                } else {
                    completes(
                        r,
                        spec_create_response(req.device_io_request, req.create_disposition, STATUS_UNSUCCESSFUL, 0),
                    )
                },
            },
            final(self).device_ids() == old(self).device_ids(),
    {
        match self.dir.handle_tdp_sd_delete_response(res) {
            Ok(o) => {
                proof {
                    lemma_auto_spec_u32_to_from_le_bytes();
                }
                frame_drive_output(o)
            },
            Err(e) => Err(e),
        }
    }

    pub fn handle_tdp_sd_list_response(&mut self, res: SharedDirectoryListResponse) -> (r: RdpResult<RdpdrOutput>)
        requires
            old(self).wf(),
        ensures
            final(self).wf(),
            !old(self).drive().list_table().contains_key(res.completion_id) ==> r == Err::<
                RdpdrOutput,
                ErrorKind,
            >(ErrorKind::TdpMismatch),
            old(self).drive().list_table().contains_key(res.completion_id) ==> ({
                let req = old(self).drive().list_table()[res.completion_id];
                let io = req.device_io_request;
                let level = req.file_info_class_lvl;
                if res.err_code != crate::tdp::TdpErrCode::Nil || !old(self).drive().cache().contains_key(
                    io.file_id,
                ) {
                    completes(r, spec_query_dir_response(io, STATUS_UNSUCCESSFUL, Seq::empty()))
                } else if !crate::fsinfo::is_dir_level(level) {
                    r == Err::<RdpdrOutput, ErrorKind>(ErrorKind::Protocol)
                } else {
                    let next = crate::dir::listing_next(
                        crate::dir::ListingView {
                            own: old(self).drive().cache()[io.file_id].fso,
                            contents: res.fso_list@,
                            contents_i: 0,
                            dot_sent: false,
                            dotdot_sent: false,
                        },
                    ).1;
                    match r {
                        Ok(_) => completes(r, crate::dir::spec_listing_reply(io, level, next)),
                        Err(e) => e == ErrorKind::InvalidData && (next matches Some(x) && x.3.len()
                            > crate::dir::MAX_NAME_UNITS),
                    }
                }
            }),
            final(self).device_ids() == old(self).device_ids(),
    {
        let ghost pre = self.dir;
        let ghost lres = res;
        match self.dir.handle_tdp_sd_list_response(res) {
            Ok(o) => {
                proof {
                    lemma_auto_spec_u32_to_from_le_bytes();
                    if pre.list_table().contains_key(lres.completion_id) {
                        let req = pre.list_table()[lres.completion_id];
                        let io = req.device_io_request;
                        if lres.err_code == crate::tdp::TdpErrCode::Nil && pre.cache().contains_key(io.file_id)
                            && crate::fsinfo::is_dir_level(req.file_info_class_lvl) {
                            let base = crate::dir::FileCacheObject {
                                contents: lres.fso_list,
                                contents_i: 0,
                                dot_sent: false,
                                dotdot_sent: false,
                                ..pre.cache()[io.file_id]
                            };
                            assert(crate::dir::listing_view(base).contents == lres.fso_list@);
                            crate::dir::lemma_listing_reply_len(
                                io,
                                req.file_info_class_lvl,
                                crate::dir::listing_next(crate::dir::listing_view(base)).1,
                            );
                        }
                    }
                }
                frame_drive_output(o)
            },
            Err(e) => Err(e),
        }
    }

    pub fn handle_tdp_sd_read_response(&mut self, res: SharedDirectoryReadResponse) -> (r: RdpResult<RdpdrOutput>)
        requires
            old(self).wf(),
        ensures
            final(self).wf(),
            !old(self).drive().read_table().contains_key(res.completion_id) ==> r == Err::<
                RdpdrOutput,
                ErrorKind,
            >(ErrorKind::TdpMismatch),
            old(self).drive().read_table().contains_key(res.completion_id) ==> ({
                let io = old(self).drive().read_table()[res.completion_id];
                if res.err_code == crate::tdp::TdpErrCode::Nil && res.read_data@.len() <= u32::MAX - 20 {
                    completes(r, spec_read_response(io, STATUS_SUCCESS, res.read_data@))
                } else if res.err_code != crate::tdp::TdpErrCode::Nil {
                    completes(r, spec_read_response(io, STATUS_UNSUCCESSFUL, Seq::empty()))
                } else {
                    true
                }
            }),
            final(self).device_ids() == old(self).device_ids(),
    {
        match self.dir.handle_tdp_sd_read_response(res) {
            Ok(o) => {
                proof {
                    lemma_auto_spec_u32_to_from_le_bytes();
                }
                frame_drive_output(o)
            },
            Err(e) => Err(e),
        }
    }

    pub fn handle_tdp_sd_write_response(&mut self, res: SharedDirectoryWriteResponse) -> (r: RdpResult<RdpdrOutput>)
        requires
            old(self).wf(),
        ensures
            final(self).wf(),
            !old(self).drive().write_table().contains_key(res.completion_id) ==> r == Err::<
                RdpdrOutput,
                ErrorKind,
            >(ErrorKind::TdpMismatch),
            old(self).drive().write_table().contains_key(res.completion_id) ==> ({
                let io = old(self).drive().write_table()[res.completion_id];
                if res.err_code == crate::tdp::TdpErrCode::Nil {
                    completes(r, spec_write_response(io, STATUS_SUCCESS, res.bytes_written))
                } else {
                    completes(r, spec_write_response(io, STATUS_UNSUCCESSFUL, 0))
                }
            }),
            final(self).device_ids() == old(self).device_ids(),
    {
        match self.dir.handle_tdp_sd_write_response(res) {
            Ok(o) => {
                proof {
                    lemma_auto_spec_u32_to_from_le_bytes();
                }
                frame_drive_output(o)
            },
            Err(e) => Err(e),
        }
    }

    pub fn handle_tdp_sd_move_response(&mut self, res: SharedDirectoryMoveResponse) -> (r: RdpResult<RdpdrOutput>)
        requires
            old(self).wf(),
        ensures
            final(self).wf(),
            !old(self).drive().move_table().contains_key(res.completion_id) ==> r == Err::<
                RdpdrOutput,
                ErrorKind,
            >(ErrorKind::TdpMismatch),
            old(self).drive().move_table().contains_key(res.completion_id) ==> ({
                let m = old(self).drive().move_table()[res.completion_id];
                spec_set_info_size(m.req.set_buffer) <= u32::MAX ==> completes(
                    r,
                    spec_set_info_response(
                        m.req.device_io_request,
                        if res.err_code == crate::tdp::TdpErrCode::Nil {
                            m.io_status
                        } else {
                            STATUS_UNSUCCESSFUL
                        },
                        spec_set_info_size(m.req.set_buffer),
                    ),
                )
            }),
            final(self).device_ids() == old(self).device_ids(),
    {
        match self.dir.handle_tdp_sd_move_response(res) {
            Ok(o) => {
                proof {
                    lemma_auto_spec_u32_to_from_le_bytes();
                }
                frame_drive_output(o)
            },
            Err(e) => Err(e),
        }
    }
}

} // verus!
