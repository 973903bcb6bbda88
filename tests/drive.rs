use rdpclient::dir::{path_name, unix_path, Client, CreateAction, create_action, DriveOutput};
use rdpclient::error::ErrorKind;
use rdpclient::rdpdr::{
    DeviceCreateRequest, DeviceIoRequest, DeviceReadRequest, DeviceWriteRequest,
    ServerDriveQueryDirectoryRequest, ServerDriveSetInformationRequest, SetInformation,
    FILE_CREATE, FILE_DIRECTORY_FILE, FILE_NON_DIRECTORY_FILE, FILE_OPEN, FILE_OPEN_IF,
    FILE_OVERWRITE, FILE_OVERWRITE_IF, FILE_SUPERSEDE, IRP_MJ_CREATE, IRP_MJ_DIRECTORY_CONTROL,
    IRP_MN_QUERY_DIRECTORY, STATUS_ACCESS_DENIED, STATUS_NOT_A_DIRECTORY, STATUS_NO_MORE_FILES,
    STATUS_NO_SUCH_FILE, STATUS_OBJECT_NAME_COLLISION, STATUS_SUCCESS, STATUS_UNSUCCESSFUL,
    STATUS_DIRECTORY_NOT_EMPTY, STATUS_NOT_SUPPORTED,
};
use rdpclient::tdp::{
    to_windows_time, FileSystemObject, FileType, SharedDirectoryCreateResponse,
    SharedDirectoryDeleteResponse, SharedDirectoryInfoResponse, SharedDirectoryListResponse,
    SharedDirectoryMoveResponse, SharedDirectoryReadResponse, SharedDirectoryWriteResponse,
    TdpErrCode, TdpRequest,
};

fn u32_at(b: &[u8], at: usize) -> u32 {
    u32::from_le_bytes([b[at], b[at + 1], b[at + 2], b[at + 3]])
}

fn units(s: &str) -> Vec<u16> {
    s.encode_utf16().collect()
}

fn io(major: u32, minor: u32, file_id: u32, completion_id: u32) -> DeviceIoRequest {
    DeviceIoRequest { device_id: 2, file_id, completion_id, major_function: major, minor_function: minor }
}

fn fso(path: &str, file_type: FileType, is_empty: bool) -> FileSystemObject {
    FileSystemObject { last_modified: 1_655_246_166_000, size: 42, file_type, is_empty, path: path.to_string() }
}

fn create_req(completion_id: u32, disposition: u32, options: u32, path: &str) -> DeviceCreateRequest {
    DeviceCreateRequest {
        device_io_request: io(IRP_MJ_CREATE, 0, 0, completion_id),
        desired_access: 0,
        allocation_size: 0,
        file_attributes: 0,
        shared_access: 0,
        create_disposition: disposition,
        create_options: options,
        path: units(path),
    }
}

fn reply(o: &DriveOutput) -> Vec<u8> {
    o.reply.clone().unwrap()
}

fn info(completion_id: u32, err_code: TdpErrCode, f: FileSystemObject) -> SharedDirectoryInfoResponse {
    SharedDirectoryInfoResponse { completion_id, err_code, fso: f }
}

/// Opens an existing object and returns its file id.
fn open(c: &mut Client, completion_id: u32, path: &str, file_type: FileType, is_empty: bool) -> u32 {
    c.process_irp_create(create_req(completion_id, FILE_OPEN, 0, path));
    let o = c.handle_tdp_sd_info_response(info(completion_id, TdpErrCode::Nil, fso(path, file_type, is_empty))).unwrap();
    let r = reply(&o);
    assert_eq!(u32_at(&r, 8), STATUS_SUCCESS);
    u32_at(&r, 12)
}

#[test]
fn create_missing_file_with_file_create() {
    let mut c = Client::new(true);
    let o = c.process_irp_create(create_req(9, FILE_CREATE, 0, "\\dir\\new.txt"));
    assert!(o.reply.is_none());
    match o.tdp.unwrap() {
        TdpRequest::Info(i) => {
            assert_eq!(i.completion_id, 9);
            assert_eq!(i.directory_id, 2);
            assert_eq!(i.path, "dir/new.txt");
        }
        _ => panic!("expected an info request"),
    }
    let o = c.handle_tdp_sd_info_response(info(9, TdpErrCode::DoesNotExist, fso("", FileType::File, true))).unwrap();
    assert!(o.reply.is_none());
    match o.tdp.unwrap() {
        TdpRequest::Create(cr) => {
            assert_eq!(cr.file_type, FileType::File);
            assert_eq!(cr.path, "dir/new.txt");
        }
        _ => panic!("expected a create request"),
    }
    let o = c
        .handle_tdp_sd_create_response(SharedDirectoryCreateResponse {
            completion_id: 9,
            err_code: TdpErrCode::Nil,
            fso: fso("dir/new.txt", FileType::File, true),
        })
        .unwrap();
    let r = reply(&o);
    assert_eq!(r.len(), 17);
    assert_eq!(u32_at(&r, 0), 2);
    assert_eq!(u32_at(&r, 4), 9);
    assert_eq!(u32_at(&r, 8), STATUS_SUCCESS);
    assert_eq!(u32_at(&r, 12), 1);
    assert_eq!(r[16], 0); // FILE_SUPERSEDED
    assert!(c.file(1).is_some());
    assert_eq!(c.file(1).unwrap().path, "dir/new.txt");
}

#[test]
fn create_matrix_statuses() {
    let cases = [
        (FILE_SUPERSEDE, true, FileType::File, 0, CreateAction::Overwrite),
        (FILE_SUPERSEDE, false, FileType::File, 0, CreateAction::CreateNew(FileType::File)),
        (FILE_OPEN, true, FileType::File, 0, CreateAction::Open),
        (FILE_OPEN, false, FileType::File, 0, CreateAction::Fail(STATUS_NO_SUCH_FILE)),
        (FILE_CREATE, true, FileType::File, 0, CreateAction::Fail(STATUS_OBJECT_NAME_COLLISION)),
        (FILE_CREATE, false, FileType::File, 0, CreateAction::CreateNew(FileType::File)),
        (FILE_OPEN_IF, true, FileType::File, 0, CreateAction::Open),
        (FILE_OPEN_IF, false, FileType::File, 0, CreateAction::CreateNew(FileType::File)),
        (FILE_OVERWRITE, true, FileType::File, 0, CreateAction::Overwrite),
        (FILE_OVERWRITE, false, FileType::File, 0, CreateAction::Fail(STATUS_NO_SUCH_FILE)),
        (FILE_OVERWRITE_IF, true, FileType::File, 0, CreateAction::Overwrite),
        (FILE_OVERWRITE_IF, false, FileType::File, 0, CreateAction::CreateNew(FileType::File)),
        (FILE_CREATE, true, FileType::Directory, 0, CreateAction::Fail(STATUS_OBJECT_NAME_COLLISION)),
        (FILE_OPEN, true, FileType::Directory, FILE_NON_DIRECTORY_FILE, CreateAction::Fail(STATUS_ACCESS_DENIED)),
        (FILE_OPEN, true, FileType::File, FILE_DIRECTORY_FILE, CreateAction::Fail(STATUS_NOT_A_DIRECTORY)),
        (FILE_OPEN_IF, false, FileType::File, FILE_DIRECTORY_FILE, CreateAction::CreateNew(FileType::Directory)),
        (FILE_CREATE, false, FileType::File, FILE_DIRECTORY_FILE, CreateAction::CreateNew(FileType::Directory)),
        (FILE_OPEN, false, FileType::File, FILE_DIRECTORY_FILE, CreateAction::Fail(STATUS_NO_SUCH_FILE)),
    ];
    for (d, exists, t, o, expected) in cases {
        assert_eq!(create_action(d, exists, t, o), expected, "{} {} {:?} {}", d, exists, t, o);
    }
}

#[test]
fn create_information_by_disposition() {
    for (d, expected_info) in [(FILE_OPEN_IF, 1u8), (FILE_OPEN, 0u8)] {
        let mut c = Client::new(true);
        c.process_irp_create(create_req(3, d, 0, "\\a"));
        let o = c.handle_tdp_sd_info_response(info(3, TdpErrCode::Nil, fso("a", FileType::File, true))).unwrap();
        assert_eq!(reply(&o)[16], expected_info);
    }
    // OVERWRITE_IF: delete, then create, then FILE_OVERWRITTEN
    let mut c = Client::new(true);
    c.process_irp_create(create_req(4, FILE_OVERWRITE_IF, 0, "\\a"));
    let o = c.handle_tdp_sd_info_response(info(4, TdpErrCode::Nil, fso("a", FileType::File, true))).unwrap();
    assert!(matches!(o.tdp, Some(TdpRequest::Delete(_))));
    let o = c.handle_tdp_sd_delete_response(SharedDirectoryDeleteResponse { completion_id: 4, err_code: TdpErrCode::Nil }).unwrap();
    assert!(matches!(o.tdp, Some(TdpRequest::Create(_))));
    let o = c
        .handle_tdp_sd_create_response(SharedDirectoryCreateResponse { completion_id: 4, err_code: TdpErrCode::Nil, fso: fso("a", FileType::File, true) })
        .unwrap();
    assert_eq!(reply(&o)[16], 3);
    // a failure reports FILE_SUPERSEDED
    let mut c = Client::new(true);
    c.process_irp_create(create_req(5, FILE_OPEN_IF, FILE_DIRECTORY_FILE, "\\a"));
    let o = c.handle_tdp_sd_info_response(info(5, TdpErrCode::Nil, fso("a", FileType::File, true))).unwrap();
    let r = reply(&o);
    assert_eq!(u32_at(&r, 8), STATUS_NOT_A_DIRECTORY);
    assert_eq!(u32_at(&r, 12), 0);
    assert_eq!(r[16], 0);
}

#[test]
fn failed_probe_is_an_operation_failure() {
    let mut c = Client::new(true);
    c.process_irp_create(create_req(6, FILE_OPEN, 0, "\\a"));
    let r = c.handle_tdp_sd_info_response(info(6, TdpErrCode::Failed, fso("a", FileType::File, true)));
    assert!(matches!(r, Err(ErrorKind::TdpOpFailed)));
}

#[test]
fn directory_listing_yields_dot_dotdot_then_contents() {
    let mut c = Client::new(true);
    let id = open(&mut c, 1, "\\docs", FileType::Directory, false);
    let query = |cid: u32, initial: u8| ServerDriveQueryDirectoryRequest {
        device_io_request: io(IRP_MJ_DIRECTORY_CONTROL, IRP_MN_QUERY_DIRECTORY, id, cid),
        file_info_class_lvl: 3,
        initial_query: initial,
        path: units("\\docs\\*"),
    };
    let o = c.process_irp_directory_control(query(2, 1)).unwrap();
    assert!(o.reply.is_none());
    match o.tdp.unwrap() {
        TdpRequest::List(l) => assert_eq!(l.path, "docs"),
        _ => panic!("expected a list request"),
    }
    let contents = vec![fso("docs/a.txt", FileType::File, true), fso("docs/sub", FileType::Directory, true)];
    let o = c
        .handle_tdp_sd_list_response(SharedDirectoryListResponse { completion_id: 2, err_code: TdpErrCode::Nil, fso_list: contents })
        .unwrap();
    let mut replies = vec![reply(&o)];
    for cid in 3..7 {
        replies.push(reply(&c.process_irp_directory_control(query(cid, 0)).unwrap()));
    }
    let names = [".", "..", "a.txt", "sub"];
    for (k, name) in names.iter().enumerate() {
        let r = &replies[k];
        assert_eq!(u32_at(r, 8), STATUS_SUCCESS);
        let len = u32_at(r, 12) as usize;
        assert_eq!(len, 93 + 2 * name.len());
        assert_eq!(r.len(), 16 + len);
        let record = &r[16..];
        assert_eq!(u32_at(record, 60), 2 * name.len() as u32);
        let attrs = u32_at(record, 56);
        assert_eq!(attrs, if *name == "a.txt" { 0x80 } else { 0x10 });
        let t = to_windows_time(1_655_246_166_000) as u64;
        assert_eq!(u64::from_le_bytes(record[8..16].try_into().unwrap()), t);
        let got: Vec<u16> = record[93..].chunks(2).map(|p| u16::from_le_bytes([p[0], p[1]])).collect();
        assert_eq!(got, units(name));
    }
    let last = &replies[4];
    assert_eq!(u32_at(last, 8), STATUS_NO_MORE_FILES);
    assert_eq!(u32_at(last, 12), 0);
    assert_eq!(last.len(), 17);
    assert_eq!(last[16], 0);
}

#[test]
fn failed_listing_replies_unsuccessful() {
    let mut c = Client::new(true);
    let id = open(&mut c, 1, "\\d", FileType::Directory, true);
    let q = ServerDriveQueryDirectoryRequest {
        device_io_request: io(IRP_MJ_DIRECTORY_CONTROL, IRP_MN_QUERY_DIRECTORY, id, 2),
        file_info_class_lvl: 3,
        initial_query: 1,
        path: units("\\d\\*"),
    };
    c.process_irp_directory_control(q).unwrap();
    let o = c
        .handle_tdp_sd_list_response(SharedDirectoryListResponse { completion_id: 2, err_code: TdpErrCode::Failed, fso_list: vec![] })
        .unwrap();
    let r = reply(&o);
    assert_eq!(u32_at(&r, 4), 2);
    assert_eq!(u32_at(&r, 8), STATUS_UNSUCCESSFUL);
    assert_eq!(u32_at(&r, 12), 0);
    assert_eq!(r.len(), 16);
}

#[test]
fn names_information_records() {
    let mut c = Client::new(true);
    let id = open(&mut c, 1, "\\", FileType::Directory, true);
    let q = ServerDriveQueryDirectoryRequest {
        device_io_request: io(IRP_MJ_DIRECTORY_CONTROL, IRP_MN_QUERY_DIRECTORY, id, 2),
        file_info_class_lvl: 12,
        initial_query: 1,
        path: units("\\*"),
    };
    c.process_irp_directory_control(q).unwrap();
    let o = c.handle_tdp_sd_list_response(SharedDirectoryListResponse { completion_id: 2, err_code: TdpErrCode::Nil, fso_list: vec![] }).unwrap();
    let r = reply(&o);
    assert_eq!(u32_at(&r, 12), 12 + 2);
}

#[test]
fn unknown_completion_ids_are_mismatches() {
    let mut c = Client::new(true);
    assert!(matches!(c.handle_tdp_sd_info_response(info(77, TdpErrCode::Nil, fso("a", FileType::File, true))), Err(ErrorKind::TdpMismatch)));
    assert!(matches!(
        c.handle_tdp_sd_create_response(SharedDirectoryCreateResponse { completion_id: 77, err_code: TdpErrCode::Nil, fso: fso("a", FileType::File, true) }),
        Err(ErrorKind::TdpMismatch)
    ));
    assert!(matches!(c.handle_tdp_sd_delete_response(SharedDirectoryDeleteResponse { completion_id: 77, err_code: TdpErrCode::Nil }), Err(ErrorKind::TdpMismatch)));
    assert!(matches!(
        c.handle_tdp_sd_list_response(SharedDirectoryListResponse { completion_id: 77, err_code: TdpErrCode::Nil, fso_list: vec![] }),
        Err(ErrorKind::TdpMismatch)
    ));
    assert!(matches!(
        c.handle_tdp_sd_read_response(SharedDirectoryReadResponse { completion_id: 77, err_code: TdpErrCode::Nil, read_data: vec![] }),
        Err(ErrorKind::TdpMismatch)
    ));
    assert!(matches!(
        c.handle_tdp_sd_write_response(SharedDirectoryWriteResponse { completion_id: 77, err_code: TdpErrCode::Nil, bytes_written: 0 }),
        Err(ErrorKind::TdpMismatch)
    ));
    assert!(matches!(c.handle_tdp_sd_move_response(SharedDirectoryMoveResponse { completion_id: 77, err_code: TdpErrCode::Nil }), Err(ErrorKind::TdpMismatch)));
}

#[test]
fn interleaved_responses_reply_in_arrival_order() {
    let mut c = Client::new(true);
    let id = open(&mut c, 1, "\\f.txt", FileType::File, true);
    let read = |cid: u32| DeviceReadRequest { device_io_request: io(3, 0, id, cid), length: 4, offset: 0 };
    assert!(c.process_irp_read(read(10)).reply.is_none());
    assert!(c.process_irp_read(read(11)).reply.is_none());
    let w = DeviceWriteRequest { device_io_request: io(4, 0, id, 12), length: 2, offset: 0, write_data: vec![1, 2] };
    match c.process_irp_write(w).tdp.unwrap() {
        TdpRequest::Write(q) => assert_eq!(q.write_data, vec![1, 2]),
        _ => panic!("expected a write request"),
    }
    let o = c.handle_tdp_sd_read_response(SharedDirectoryReadResponse { completion_id: 11, err_code: TdpErrCode::Nil, read_data: b"bbbb".to_vec() }).unwrap();
    assert_eq!(u32_at(&reply(&o), 4), 11);
    assert_eq!(reply(&o)[16..].to_vec(), b"bbbb".to_vec());
    let o = c.handle_tdp_sd_write_response(SharedDirectoryWriteResponse { completion_id: 12, err_code: TdpErrCode::Nil, bytes_written: 2 }).unwrap();
    assert_eq!(u32_at(&reply(&o), 4), 12);
    assert_eq!(u32_at(&reply(&o), 12), 2);
    let o = c.handle_tdp_sd_read_response(SharedDirectoryReadResponse { completion_id: 10, err_code: TdpErrCode::Failed, read_data: vec![] }).unwrap();
    assert_eq!(u32_at(&reply(&o), 4), 10);
    assert_eq!(u32_at(&reply(&o), 8), STATUS_UNSUCCESSFUL);
    // each id is consumed once
    assert!(matches!(
        c.handle_tdp_sd_read_response(SharedDirectoryReadResponse { completion_id: 10, err_code: TdpErrCode::Nil, read_data: vec![] }),
        Err(ErrorKind::TdpMismatch)
    ));
}

#[test]
fn close_with_delete_pending_deletes_first() {
    let mut c = Client::new(true);
    let id = open(&mut c, 1, "\\gone.txt", FileType::File, true);
    let set = ServerDriveSetInformationRequest {
        device_io_request: io(6, 0, id, 2),
        set_buffer: SetInformation::Disposition { delete_pending: 1 },
    };
    let o = c.process_irp_set_information(set);
    assert_eq!(u32_at(&reply(&o), 8), STATUS_SUCCESS);
    assert_eq!(u32_at(&reply(&o), 12), 1);
    assert!(c.file(id).unwrap().delete_pending);
    let o = c.process_irp_close(io(2, 0, id, 3));
    match o.tdp.unwrap() {
        TdpRequest::Delete(d) => assert_eq!(d.path, "gone.txt"),
        _ => panic!("expected a delete request"),
    }
    assert!(c.file(id).is_none());
    let o = c.handle_tdp_sd_delete_response(SharedDirectoryDeleteResponse { completion_id: 3, err_code: TdpErrCode::Nil }).unwrap();
    assert_eq!(reply(&o).len(), 16);
    assert_eq!(u32_at(&reply(&o), 8), STATUS_SUCCESS);
    // closing an unknown file fails
    let o = c.process_irp_close(io(2, 0, 99, 4));
    assert_eq!(u32_at(&reply(&o), 8), STATUS_UNSUCCESSFUL);
}

#[test]
fn non_empty_directory_keeps_its_delete_pending() {
    let mut c = Client::new(true);
    let id = open(&mut c, 1, "\\full", FileType::Directory, false);
    let set = ServerDriveSetInformationRequest {
        device_io_request: io(6, 0, id, 2),
        set_buffer: SetInformation::Disposition { delete_pending: 1 },
    };
    let o = c.process_irp_set_information(set);
    assert_eq!(u32_at(&reply(&o), 8), STATUS_DIRECTORY_NOT_EMPTY);
    assert!(!c.file(id).unwrap().delete_pending);
}

#[test]
fn rename_without_replace_probes_the_destination() {
    let mut c = Client::new(true);
    let id = open(&mut c, 1, "\\old.txt", FileType::File, true);
    let set = |cid: u32, replace: bool| ServerDriveSetInformationRequest {
        device_io_request: io(6, 0, id, cid),
        set_buffer: SetInformation::Rename { replace_if_exists: replace, file_name: units("\\new.txt") },
    };
    let o = c.process_irp_set_information(set(2, false));
    match o.tdp.unwrap() {
        TdpRequest::Info(i) => assert_eq!(i.path, "new.txt"),
        _ => panic!("expected an info request"),
    }
    let o = c.handle_tdp_sd_info_response(info(2, TdpErrCode::Nil, fso("new.txt", FileType::File, true))).unwrap();
    assert_eq!(u32_at(&reply(&o), 8), STATUS_OBJECT_NAME_COLLISION);
    assert_eq!(u32_at(&reply(&o), 12), 6 + 2 * 8);

    let o = c.process_irp_set_information(set(3, false));
    assert!(o.reply.is_none());
    let o = c.handle_tdp_sd_info_response(info(3, TdpErrCode::DoesNotExist, fso("", FileType::File, true))).unwrap();
    match o.tdp.unwrap() {
        TdpRequest::Move(m) => {
            assert_eq!(m.original_path, "old.txt");
            assert_eq!(m.new_path, "new.txt");
        }
        _ => panic!("expected a move request"),
    }
    let o = c.handle_tdp_sd_move_response(SharedDirectoryMoveResponse { completion_id: 3, err_code: TdpErrCode::Nil }).unwrap();
    assert_eq!(u32_at(&reply(&o), 8), STATUS_SUCCESS);
    assert_eq!(c.file(id).unwrap().path, "new.txt");

    let o = c.process_irp_set_information(set(4, true));
    assert!(matches!(o.tdp, Some(TdpRequest::Move(_))));
    let o = c.handle_tdp_sd_move_response(SharedDirectoryMoveResponse { completion_id: 4, err_code: TdpErrCode::Failed }).unwrap();
    assert_eq!(u32_at(&reply(&o), 8), STATUS_UNSUCCESSFUL);
    assert_eq!(c.file(id).unwrap().path, "new.txt");
}

#[test]
fn query_information_levels() {
    let mut c = Client::new(true);
    let id = open(&mut c, 1, "\\f.txt", FileType::File, true);
    let o = c.process_irp_query_information(io(5, 0, id, 2), 5).unwrap();
    let r = reply(&o);
    assert_eq!(u32_at(&r, 12), 22);
    assert_eq!(u64::from_le_bytes(r[16..24].try_into().unwrap()), 42);
    assert_eq!(r[36], 0);
    assert_eq!(r[37], 0);
    let o = c.process_irp_query_information(io(5, 0, id, 3), 4).unwrap();
    assert_eq!(u32_at(&reply(&o), 12), 36);
    assert_eq!(u32_at(&reply(&o), 48), 0x80);
    let o = c.process_irp_query_information(io(5, 0, id, 4), 35).unwrap();
    assert_eq!(u32_at(&reply(&o), 12), 8);
    let o = c.process_irp_query_information(io(5, 0, id, 5), 6).unwrap();
    assert_eq!(reply(&o).len(), 16);
    assert_eq!(u32_at(&reply(&o), 8), STATUS_NOT_SUPPORTED);
    assert_eq!(u32_at(&reply(&o), 12), 0);
    let o = c.process_irp_query_information(io(5, 0, 99, 6), 5).unwrap();
    assert_eq!(reply(&o).len(), 12);
    assert_eq!(u32_at(&reply(&o), 8), STATUS_UNSUCCESSFUL);
}

#[test]
fn query_volume_levels() {
    let mut c = Client::new(true);
    let id = open(&mut c, 1, "\\", FileType::Directory, true);
    let o = c.process_irp_query_volume_information(io(10, 0, id, 2), 1).unwrap();
    let r = reply(&o);
    assert_eq!(u32_at(&r, 12), 35);
    let label: Vec<u16> = r[33..].chunks(2).map(|p| u16::from_le_bytes([p[0], p[1]])).collect();
    assert_eq!(label, units("TELEPORT\0"));
    assert_eq!(u64::from_le_bytes(r[16..24].try_into().unwrap()), to_windows_time(1_655_246_166_000) as u64);
    assert_eq!(u32_at(&reply(&c.process_irp_query_volume_information(io(10, 0, id, 3), 3).unwrap()), 12), 24);
    assert_eq!(u32_at(&reply(&c.process_irp_query_volume_information(io(10, 0, id, 4), 5).unwrap()), 12), 24);
    assert_eq!(u32_at(&reply(&c.process_irp_query_volume_information(io(10, 0, id, 5), 7).unwrap()), 12), 32);
    let dev = reply(&c.process_irp_query_volume_information(io(10, 0, id, 6), 4).unwrap());
    assert_eq!(u32_at(&dev, 12), 8);
    assert_eq!(u32_at(&dev, 16), 7);
    let other = reply(&c.process_irp_query_volume_information(io(10, 0, id, 7), 2).unwrap());
    assert_eq!(u32_at(&other, 8), STATUS_UNSUCCESSFUL);
    assert!(matches!(c.process_irp_query_volume_information(io(10, 0, 99, 8), 1), Err(ErrorKind::InvalidData)));
}

#[test]
fn paths_convert_between_windows_and_host_forms() {
    assert_eq!(unix_path(&units("\\dir\\sub\\f.txt")), "dir/sub/f.txt");
    assert_eq!(unix_path(&units("\\")), "");
    assert_eq!(unix_path(&units("a\\b")), "a/b");
    assert_eq!(path_name(&"dir/sub/file.txt".to_string()), units("file.txt"));
    assert_eq!(path_name(&"top".to_string()), units("top"));
    assert_eq!(path_name(&"d/".to_string()), Vec::<u16>::new());
}

#[test]
fn file_ids_are_fresh_and_non_zero() {
    let mut c = Client::new(true);
    let a = open(&mut c, 1, "\\a", FileType::File, true);
    let b = open(&mut c, 2, "\\b", FileType::File, true);
    assert_eq!(a, 1);
    assert_eq!(b, 2);
}
