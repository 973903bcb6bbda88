use rdpclient::error::ErrorKind;
use rdpclient::rdpdr::{
    Client, ClientDeviceListAnnounceRequest, ClientIdMessage, SharedHeader,
    PAKID_CORE_CLIENTID_CONFIRM, PAKID_CORE_CLIENT_CAPABILITY, PAKID_CORE_CLIENT_NAME,
    PAKID_CORE_DEVICELIST_ANNOUNCE, PAKID_CORE_DEVICE_IOCOMPLETION, RDPDR_CTYP_CORE,
    STATUS_SUCCESS,
};
use rdpclient::tdp::{
    to_windows_time, FileSystemObject, FileType, SharedDirectoryCreateResponse,
    SharedDirectoryInfoResponse, TdpErrCode, TdpRequest,
};

fn u16_at(b: &[u8], at: usize) -> u16 {
    u16::from_le_bytes([b[at], b[at + 1]])
}

fn u32_at(b: &[u8], at: usize) -> u32 {
    u32::from_le_bytes([b[at], b[at + 1], b[at + 2], b[at + 3]])
}

fn msg(packet_id: u16, body: &[u8]) -> Vec<u8> {
    let mut m = Vec::new();
    m.extend_from_slice(&RDPDR_CTYP_CORE.to_le_bytes());
    m.extend_from_slice(&packet_id.to_le_bytes());
    m.extend_from_slice(body);
    m
}

fn io_request(device_id: u32, file_id: u32, completion_id: u32, major: u32, minor: u32) -> Vec<u8> {
    let mut b = Vec::new();
    for v in [device_id, file_id, completion_id, major, minor] {
        b.extend_from_slice(&v.to_le_bytes());
    }
    b
}

/// A client with the smart card (id 1) and a drive (id 2) announced.
fn negotiated(allow: bool) -> Client {
    let mut c = Client::new(allow);
    c.handle_message(&msg(0x4343, &[1, 0, 13, 0, 7, 0, 0, 0])).unwrap();
    if allow {
        c.write_client_device_list_announce(&ClientDeviceListAnnounceRequest::new_drive(2, "share".to_string())).unwrap();
    }
    c
}

#[test]
fn test_to_windows_time() {
    assert_eq!(to_windows_time(1655246166 * 1000), 132997197660000000);
    assert_eq!(to_windows_time(1000), 116444736010000000);
}

#[test]
fn windows_time_truncates_to_seconds() {
    assert_eq!(to_windows_time(0), 116444736000000000);
    assert_eq!(to_windows_time(1999), 116444736010000000);
}

#[test]
fn shared_header_round_trip() {
    let h = SharedHeader::new(RDPDR_CTYP_CORE, PAKID_CORE_DEVICE_IOCOMPLETION);
    let b = h.encode();
    assert_eq!(b, vec![0x72, 0x44, 0x43, 0x49]);
    assert_eq!(SharedHeader::decode(&b).unwrap(), h);
    assert!(matches!(SharedHeader::decode(&vec![1, 2, 3, 4]), Err(ErrorKind::Protocol)));
}

#[test]
fn answers_server_announce() {
    let mut c = Client::new(false);
    let out = c.handle_message(&msg(0x496e, &[1, 0, 12, 0, 0x2a, 0, 0, 0])).unwrap();
    assert_eq!(out.responses.len(), 2);
    let reply = &out.responses[0];
    assert_eq!(u16_at(reply, 10), PAKID_CORE_CLIENTID_CONFIRM);
    let m = ClientIdMessage { version_major: 1, version_minor: 13, client_id: 0x2a };
    assert_eq!(reply[12..].to_vec(), m.encode());
    let name = &out.responses[1];
    assert_eq!(u16_at(name, 10), PAKID_CORE_CLIENT_NAME);
    assert_eq!(name[12..].to_vec(), [&[0u8, 0, 0, 0, 0, 0, 0, 0, 9, 0, 0, 0][..], b"teleport\0"].concat());
}

#[test]
fn capabilities_include_drive_only_when_sharing() {
    for (allow, count, len) in [(false, 2u16, 4 + 44 + 8), (true, 3u16, 4 + 44 + 8 + 8)] {
        let mut c = Client::new(allow);
        let out = c.handle_message(&msg(0x5350, &[0, 0, 0, 0])).unwrap();
        let r = &out.responses[0];
        assert_eq!(u16_at(r, 10), PAKID_CORE_CLIENT_CAPABILITY);
        assert_eq!(r.len(), 12 + len);
        assert_eq!(u16_at(r, 12), count);
        assert_eq!(u32_at(r, 16 + 20), 0x7fff);
        assert_eq!(u32_at(r, 16 + 28), 3);
        assert_eq!(u32_at(r, 16 + 40), 1);
    }
}

#[test]
fn malformed_server_capabilities_are_refused() {
    let mut c = Client::new(true);
    // one set of an unknown type
    let r = c.handle_message(&msg(0x5350, &[1, 0, 0, 0, 9, 0, 8, 0, 1, 0, 0, 0]));
    assert!(matches!(r, Err(ErrorKind::Protocol)));
    // a general set cut short
    let r = c.handle_message(&msg(0x5350, &[1, 0, 0, 0, 1, 0, 44, 0, 2, 0, 0, 0, 0, 0]));
    assert!(matches!(r, Err(ErrorKind::Protocol)));
    // a general set of version 2 and a smart card set
    let mut body = vec![2, 0, 0, 0, 1, 0, 44, 0, 2, 0, 0, 0];
    body.extend_from_slice(&[0u8; 36]);
    body.extend_from_slice(&[5, 0, 8, 0, 1, 0, 0, 0]);
    let out = c.handle_message(&msg(0x5350, &body)).unwrap();
    assert_eq!(out.responses.len(), 1);
}

#[test]
fn smart_card_is_announced_once() {
    let mut c = Client::new(false);
    let out = c.handle_message(&msg(0x4343, &[1, 0, 13, 0, 7, 0, 0, 0])).unwrap();
    let r = &out.responses[0];
    assert_eq!(u16_at(r, 10), PAKID_CORE_DEVICELIST_ANNOUNCE);
    assert_eq!(u32_at(r, 12), 1);
    assert_eq!(u32_at(r, 16), 0x20);
    assert_eq!(u32_at(r, 20), 1);
    assert_eq!(r[24..32].to_vec(), b"SCARD\0\0\0".to_vec());
    let out = c.handle_message(&msg(0x4343, &[1, 0, 13, 0, 7, 0, 0, 0])).unwrap();
    assert_eq!(u32_at(&out.responses[0], 12), 0);
    assert_eq!(c.get_scard_device_id().unwrap(), 1);
}

#[test]
fn drive_announce_truncates_dos_name() {
    let mut c = negotiated(false);
    let out = c
        .write_client_device_list_announce(&ClientDeviceListAnnounceRequest::new_drive(5, "longdrivename".to_string()))
        .unwrap();
    let r = &out[0];
    assert_eq!(u32_at(r, 16), 0x8);
    assert_eq!(u32_at(r, 20), 5);
    assert_eq!(r[24..32].to_vec(), b"longdri\0".to_vec());
    assert_eq!(u32_at(r, 32), 13);
    assert_eq!(r[36..].to_vec(), b"longdrivename".to_vec());
    let again = c.write_client_device_list_announce(&ClientDeviceListAnnounceRequest::new_drive(5, "x".to_string()));
    assert!(matches!(again, Err(ErrorKind::TdpMismatch)));
}

#[test]
fn drive_device_reply_acknowledges_to_the_host() {
    let mut c = negotiated(true);
    let out = c.handle_message(&msg(0x6472, &[2, 0, 0, 0, 0, 0, 0, 0])).unwrap();
    match out.tdp.unwrap() {
        TdpRequest::Acknowledge(a) => {
            assert_eq!(a.directory_id, 2);
            assert_eq!(a.err_code, TdpErrCode::Nil);
        }
        _ => panic!("expected an acknowledgement"),
    }
    let out = c.handle_message(&msg(0x6472, &[2, 0, 0, 0, 1, 0, 0, 0xc0])).unwrap();
    assert!(matches!(out.tdp, Some(TdpRequest::Acknowledge(a)) if a.err_code == TdpErrCode::Failed));
    let out = c.handle_message(&msg(0x6472, &[1, 0, 0, 0, 1, 0, 0, 0xc0])).unwrap();
    assert!(out.tdp.is_none());
    assert!(matches!(c.handle_message(&msg(0x6472, &[9, 0, 0, 0, 0, 0, 0, 0])), Err(ErrorKind::Protocol)));
}

#[test]
fn drive_irps_are_refused_without_sharing() {
    let mut c = negotiated(false);
    let mut body = io_request(2, 0, 1, 0x0, 0);
    body.extend_from_slice(&[0u8; 32]);
    assert!(matches!(c.handle_message(&msg(0x4952, &body)), Err(ErrorKind::Protocol)));
    let mut ioctl = io_request(2, 0, 1, 0xe, 0);
    ioctl.extend_from_slice(&[0u8; 32]);
    assert!(matches!(c.handle_message(&msg(0x4952, &ioctl)), Err(ErrorKind::Protocol)));
}

#[test]
fn smart_card_ioctl_goes_to_the_adapter() {
    let mut c = negotiated(false);
    let mut ioctl = io_request(1, 0, 5, 0xe, 0);
    ioctl.extend_from_slice(&[8, 0, 0, 0, 4, 0, 0, 0, 0xac, 0, 9, 0]);
    ioctl.extend_from_slice(&[0u8; 20]);
    ioctl.extend_from_slice(&[1, 2, 3, 4]);
    let out = c.handle_message(&msg(0x4952, &ioctl)).unwrap();
    let (req, rest) = out.smartcard.unwrap();
    assert_eq!(req.io_control_code, 0x0009_00ac);
    assert_eq!(req.header.completion_id, 5);
    assert_eq!(rest, vec![1, 2, 3, 4]);
    assert!(out.responses.is_empty());
}

#[test]
fn drive_ioctl_succeeds_with_empty_output() {
    let mut c = negotiated(true);
    let mut ioctl = io_request(2, 0, 5, 0xe, 0);
    ioctl.extend_from_slice(&[0u8; 32]);
    let out = c.handle_message(&msg(0x4952, &ioctl)).unwrap();
    let r = &out.responses[0];
    assert_eq!(u16_at(r, 10), PAKID_CORE_DEVICE_IOCOMPLETION);
    assert_eq!(r[12..].to_vec(), vec![2, 0, 0, 0, 5, 0, 0, 0, 0, 0, 0, 0, 0, 0, 0, 0]);
}

#[test]
fn drive_create_missing_file_end_to_end() {
    let mut c = negotiated(true);
    let mut body = io_request(2, 0, 9, 0x0, 0);
    let path: Vec<u8> = "\\new.txt\0".encode_utf16().flat_map(|u| u.to_le_bytes()).collect();
    body.extend_from_slice(&0u32.to_le_bytes());
    body.extend_from_slice(&0u64.to_le_bytes());
    body.extend_from_slice(&0u32.to_le_bytes());
    body.extend_from_slice(&0u32.to_le_bytes());
    body.extend_from_slice(&2u32.to_le_bytes());
    body.extend_from_slice(&0u32.to_le_bytes());
    body.extend_from_slice(&(path.len() as u32).to_le_bytes());
    body.extend_from_slice(&path);
    let out = c.handle_message(&msg(0x4952, &body)).unwrap();
    assert!(out.responses.is_empty());
    match out.tdp.unwrap() {
        TdpRequest::Info(i) => assert_eq!(i.path, "new.txt"),
        _ => panic!("expected an info request"),
    }
    let f = FileSystemObject { last_modified: 0, size: 0, file_type: FileType::File, is_empty: true, path: String::new() };
    let out = c
        .handle_tdp_sd_info_response(SharedDirectoryInfoResponse { completion_id: 9, err_code: TdpErrCode::DoesNotExist, fso: f.clone() })
        .unwrap();
    assert!(matches!(out.tdp, Some(TdpRequest::Create(_))));
    let out = c
        .handle_tdp_sd_create_response(SharedDirectoryCreateResponse { completion_id: 9, err_code: TdpErrCode::Nil, fso: f })
        .unwrap();
    let r = &out.responses[0];
    assert_eq!(u16_at(r, 10), PAKID_CORE_DEVICE_IOCOMPLETION);
    assert_eq!(u32_at(r, 12), 2);
    assert_eq!(u32_at(r, 16), 9);
    assert_eq!(u32_at(r, 20), STATUS_SUCCESS);
    assert_eq!(u32_at(r, 24), 1);
    assert_eq!(r[28], 0);
}

#[test]
fn unknown_major_function_is_refused() {
    let mut c = negotiated(true);
    let body = io_request(2, 0, 1, 0x7, 0);
    assert!(matches!(c.handle_message(&msg(0x4952, &body)), Err(ErrorKind::Protocol)));
}

#[test]
fn unserved_major_function_is_unsupported() {
    let mut c = negotiated(true);
    let body = io_request(2, 0, 1, 0x11, 0);
    assert!(matches!(c.handle_message(&msg(0x4952, &body)), Err(ErrorKind::Unsupported)));
}

#[test]
fn unknown_packet_id_is_a_protocol_error() {
    let mut c = Client::new(true);
    assert!(matches!(c.handle_message(&msg(0x1234, &[])), Err(ErrorKind::Protocol)));
}

#[test]
fn printer_messages_are_ignored() {
    let mut c = Client::new(true);
    let out = c.handle_message(&vec![0x52, 0x50, 0x43, 0x50]).unwrap();
    assert!(out.responses.is_empty() && out.tdp.is_none() && out.smartcard.is_none());
}
