use rdpclient::cliprdr::{
    decode_format_list, encode_format_list, encode_message, Client, ClipboardCapabilitiesPdu,
    ClipboardPduHeader, ClipboardPduType, GeneralClipboardCapabilitySet, LongFormatName,
    ShortFormatName, CB_CAPS_VERSION_2, CB_RESPONSE_OK, CB_STREAM_FILECLIP_ENABLED,
    CB_USE_LONG_FORMAT_NAMES, CF_OEMTEXT, CF_TEXT,
};
use rdpclient::error::ErrorKind;
use rdpclient::vchan::CHANNEL_CHUNK_LENGTH;

fn u32_at(b: &[u8], at: usize) -> u32 {
    u32::from_le_bytes([b[at], b[at + 1], b[at + 2], b[at + 3]])
}

fn message(msg_type: u16, flags: u16, body: &[u8]) -> Vec<u8> {
    let mut m = Vec::new();
    m.extend_from_slice(&msg_type.to_le_bytes());
    m.extend_from_slice(&flags.to_le_bytes());
    m.extend_from_slice(&(body.len() as u32).to_le_bytes());
    m.extend_from_slice(body);
    m
}

fn units(s: &str) -> Vec<u16> {
    s.encode_utf16().collect()
}

#[test]
fn encode_format_list_short() {
    let msg = encode_message(ClipboardPduType::FormatList, &ShortFormatName::id(CF_TEXT).encode());
    assert_eq!(
        msg[0],
        vec![
            0x2C, 0x00, 0x00, 0x00, // length (44 bytes)
            0x13, 0x00, 0x00, 0x00, // flags (first + last + show protocol)
            0x02, 0x00, // message type
            0x00, 0x00, // message flags
            0x24, 0x00, 0x00, 0x00, // message length (36 bytes after header)
            0x01, 0x00, 0x00, 0x00, // format ID (CF_TEXT)
            0x00, 0x00, 0x00, 0x00, 0x00, 0x00, 0x00, 0x00, //
            0x00, 0x00, 0x00, 0x00, 0x00, 0x00, 0x00, 0x00, //
            0x00, 0x00, 0x00, 0x00, 0x00, 0x00, 0x00, 0x00, //
            0x00, 0x00, 0x00, 0x00, 0x00, 0x00, 0x00, 0x00, //
        ]
    );
}

#[test]
fn encode_format_list_long() {
    let body = encode_format_list(&vec![LongFormatName::id(0)]);
    let encoded = encode_message(ClipboardPduType::FormatList, &body);
    assert_eq!(
        encoded[0],
        vec![
            0x0e, 0x00, 0x00, 0x00, // message length (14 bytes)
            0x13, 0x00, 0x00, 0x00, // flags (first + last + show protocol)
            0x02, 0x00, 0x00, 0x00, // message type (format list), and flags (0)
            0x06, 0x00, 0x00, 0x00, // message length (6 bytes)
            0x00, 0x00, 0x00, 0x00, // format id 0
            0x00, 0x00 // null terminator
        ]
    );
}

#[test]
fn encode_clipboard_capabilities() {
    let msg = ClipboardCapabilitiesPdu {
        general: Some(GeneralClipboardCapabilitySet { version: CB_CAPS_VERSION_2, flags: 0 }),
    }
    .encode();
    assert_eq!(
        msg,
        vec![
            0x01, 0x00, 0x00, 0x00, // count, pad
            0x01, 0x00, 0x0C, 0x00, // type, length
            0x02, 0x00, 0x00, 0x00, // version (2)
            0x00, 0x00, 0x00, 0x00, // flags (0)
        ]
    )
}

#[test]
fn decode_clipboard_capabilities() {
    let msg = ClipboardCapabilitiesPdu::decode(&vec![
        0x01, 0x00, 0x00, 0x00, // count, pad
        0x01, 0x00, 0x0C, 0x00, // type, length
        0x02, 0x00, 0x00, 0x00, // version (2)
        0x00, 0x00, 0x00, 0x00, // flags (0)
    ])
    .unwrap();
    let general_set = msg.general.unwrap();
    assert_eq!(general_set.flags, 0);
    assert_eq!(general_set.version, CB_CAPS_VERSION_2);
}

#[test]
fn decode_format_list_long() {
    let no_name = vec![0x01, 0x00, 0x00, 0x00, 0x00, 0x00];
    let decoded = decode_format_list(&no_name).unwrap();
    assert_eq!(decoded.len(), 1);
    assert_eq!(decoded[0].format_id, CF_TEXT);
    assert!(decoded[0].format_name.is_empty());

    let one_name = vec![
        0x01, 0x00, 0x00, 0x00, // CF_TEXT
        0x74, 0x00, 0x65, 0x00, 0x73, 0x00, 0x74, 0x00, // "test"
        0x00, 0x00, // null terminator
    ];
    let decoded = decode_format_list(&one_name).unwrap();
    assert_eq!(decoded.len(), 1);
    assert_eq!(decoded[0].format_id, CF_TEXT);
    assert_eq!(decoded[0].format_name, units("test"));

    let two_names = vec![
        0x01, 0x00, 0x00, 0x00, // CF_TEXT
        0x74, 0x00, 0x65, 0x00, 0x73, 0x00, 0x74, 0x00, // "test"
        0x00, 0x00, // null terminator
        0x01, 0x00, 0x00, 0x00, // CF_TEXT
        0x74, 0x00, 0x65, 0x00, 0x6c, 0x00, 0x65, 0x00, // "tele"
        0x70, 0x00, 0x6f, 0x00, 0x72, 0x00, 0x74, 0x00, // "port"
        0x00, 0x00, // null terminator
    ];
    let decoded = decode_format_list(&two_names).unwrap();
    assert_eq!(decoded.len(), 2);
    assert_eq!(decoded[0].format_id, CF_TEXT);
    assert_eq!(decoded[0].format_name, units("test"));
    assert_eq!(decoded[1].format_id, CF_TEXT);
    assert_eq!(decoded[1].format_name, units("teleport"));
}

#[test]
fn responds_to_monitor_ready() {
    let mut c = Client::new();
    let out = c.handle_message(&message(1, 0, &[])).unwrap();
    let responses = out.responses;
    assert_eq!(2, responses.len());

    // First response - our client capabilities:
    let payload = responses[0][8..].to_vec();
    let header = ClipboardPduHeader::decode(&payload).unwrap();
    assert_eq!(header.msg_type, ClipboardPduType::ClipCaps);
    let capabilities = ClipboardCapabilitiesPdu::decode(&payload[8..].to_vec()).unwrap();
    let general = capabilities.general.unwrap();
    assert_eq!(general.flags, CB_USE_LONG_FORMAT_NAMES | CB_STREAM_FILECLIP_ENABLED);

    // Second response - the format list PDU:
    let payload = responses[1][8..].to_vec();
    let header = ClipboardPduHeader::decode(&payload).unwrap();
    assert_eq!(header.msg_type, ClipboardPduType::FormatList);
    assert_eq!(header.msg_flags, 0);
    assert_eq!(header.data_len, 6);
    let format_list = decode_format_list(&payload[8..].to_vec()).unwrap();
    assert_eq!(format_list.len(), 1);
    assert_eq!(format_list[0].format_id, 0);
    assert!(format_list[0].format_name.is_empty());
}

#[test]
fn encodes_large_format_data_response() {
    let mut data = Vec::new();
    data.resize(CHANNEL_CHUNK_LENGTH + 2, 0);
    for (i, item) in data.iter_mut().enumerate() {
        *item = (i % 256) as u8;
    }
    let messages = encode_message(ClipboardPduType::FormatDataResponse, &data);
    assert_eq!(2, messages.len());
    // FIRST | SHOW_PROTOCOL, then LAST | SHOW_PROTOCOL
    assert_eq!(u32_at(&messages[0], 4), 0x11);
    assert_eq!(u32_at(&messages[1], 4), 0x12);
}

#[test]
fn responds_to_format_data_request_hasdata() {
    // a null-terminated utf-16 string, represented as a Vec<u8>
    let test_data: Vec<u8> = "test\0".encode_utf16().flat_map(|v| v.to_le_bytes()).collect();

    let mut c = Client::new();
    c.update_clipboard(test_data.clone()).unwrap();
    assert_eq!(c.cached(CF_OEMTEXT).unwrap(), test_data);

    let out = c.handle_message(&message(4, 0, &CF_OEMTEXT.to_le_bytes())).unwrap();
    let responses = out.responses;
    assert_eq!(responses.len(), 1);
    let payload = responses[0][8..].to_vec();
    let header = ClipboardPduHeader::decode(&payload).unwrap();
    assert_eq!(header.msg_type, ClipboardPduType::FormatDataResponse);
    assert_eq!(header.msg_flags, CB_RESPONSE_OK);
    assert_eq!(header.data_len, 10);
    assert_eq!(payload[8..].to_vec(), test_data);
}

#[test]
fn invokes_callback_with_clipboard_data() {
    let mut c = Client::new();
    let out = c
        .handle_message(&message(5, CB_RESPONSE_OK, String::from("abc\0").as_bytes()))
        .unwrap();
    // ensure that the null terminator was trimmed
    assert_eq!(out.remote_copy.unwrap(), String::from("abc").into_bytes());
}

#[test]
fn update_clipboard_returns_format_list_pdu() {
    let mut c = Client::new();
    let messages = c.update_clipboard(String::from("abc").into_bytes()).unwrap();
    let payload = messages[0][8..].to_vec();
    let header = ClipboardPduHeader::decode(&payload).unwrap();
    let format_list = decode_format_list(&payload[8..].to_vec()).unwrap();
    assert_eq!(ClipboardPduType::FormatList, header.msg_type);
    assert_eq!(1, format_list.len());
    assert_eq!(CF_OEMTEXT, format_list[0].format_id);
    // verify that the clipboard data is now cached (with a null-terminating character)
    assert_eq!(String::from("abc\0").into_bytes(), c.cached(CF_OEMTEXT).unwrap());
}

#[test]
fn update_clipboard_conversion() {
    for (input, expected) in &[
        ("abc\0", "abc\0"),
        ("\n123", "\r\n123\0"),
        ("def\r\n", "def\r\n\0"),
        ("gh\r\nij\nk", "gh\r\nij\r\nk\0"),
    ] {
        let mut c = Client::new();
        c.update_clipboard(String::from(*input).into_bytes()).unwrap();
        assert_eq!(
            String::from(*expected).into_bytes(),
            c.cached(CF_OEMTEXT).unwrap(),
            "testing {}",
            input
        );
    }
}

#[test]
fn oem_text_conversion_is_idempotent() {
    for input in ["", "a\nb", "\r\n\n\r", "x\0", "\n\n", "tail\n"] {
        let mut c = Client::new();
        c.update_clipboard(input.as_bytes().to_vec()).unwrap();
        let once = c.cached(CF_OEMTEXT).unwrap();
        c.update_clipboard(once.clone()).unwrap();
        assert_eq!(c.cached(CF_OEMTEXT).unwrap(), once, "input {:?}", input);
    }
}

#[test]
fn empty_local_copy_caches_a_nul() {
    let mut c = Client::new();
    c.update_clipboard(Vec::new()).unwrap();
    assert_eq!(c.cached(CF_OEMTEXT).unwrap(), vec![0u8]);
}

#[test]
fn local_copy_announces_oem_text_only() {
    let mut c = Client::new();
    let messages = c.update_clipboard(b"abc".to_vec()).unwrap();
    assert_eq!(messages.len(), 1);
    let m = &messages[0];
    assert_eq!(u32_at(m, 0), 14);
    assert_eq!(u32_at(m, 4), 0x13);
    assert_eq!(m[8..].to_vec(), vec![2, 0, 0, 0, 6, 0, 0, 0, 7, 0, 0, 0, 0, 0]);
    assert_eq!(c.cached(CF_OEMTEXT).unwrap(), b"abc\0".to_vec());
}

#[test]
fn remote_text_paste_strips_nul() {
    let mut c = Client::new();
    let list = message(2, 0, &[7, 0, 0, 0, 0, 0]);
    let out = c.handle_message(&list).unwrap();
    // a format list response, then a data request for format 7
    assert_eq!(out.responses.len(), 2);
    assert_eq!(out.responses[0][8..].to_vec(), vec![3, 0, 1, 0, 0, 0, 0, 0]);
    assert_eq!(u32_at(&out.responses[0], 4), 0x3);
    assert_eq!(out.responses[1][8..].to_vec(), vec![4, 0, 0, 0, 4, 0, 0, 0, 7, 0, 0, 0]);
    assert_eq!(u32_at(&out.responses[1], 4), 0x13);
    assert!(!c.is_expecting_file_list());
    let out = c.handle_message(&message(5, CB_RESPONSE_OK, b"abc\0")).unwrap();
    assert_eq!(out.remote_copy.unwrap(), b"abc".to_vec());
    assert!(out.responses.is_empty());
}

#[test]
fn file_list_format_is_requested_and_parsed() {
    let mut c = Client::new();
    let mut body = vec![0x0f, 0xc0, 0, 0];
    for u in "FileGroupDescriptorW".encode_utf16() {
        body.extend_from_slice(&u.to_le_bytes());
    }
    body.extend_from_slice(&[0, 0]);
    let out = c.handle_message(&message(2, 0, &body)).unwrap();
    assert_eq!(out.responses.len(), 2);
    assert_eq!(u32_at(&out.responses[1], 16), 0xc00f);
    assert!(c.is_expecting_file_list());

    let mut list = vec![1, 0, 0, 0];
    let mut d = vec![0u8; 592];
    d[0..4].copy_from_slice(&0xffff_ffffu32.to_le_bytes());
    d[36..40].copy_from_slice(&0xffff_ffffu32.to_le_bytes());
    d[64..68].copy_from_slice(&1u32.to_le_bytes());
    d[68..72].copy_from_slice(&2u32.to_le_bytes());
    for (i, u) in "a.txt".encode_utf16().enumerate() {
        d[72 + 2 * i..74 + 2 * i].copy_from_slice(&u.to_le_bytes());
    }
    list.extend_from_slice(&d);
    let out = c.handle_message(&message(5, CB_RESPONSE_OK, &list)).unwrap();
    assert_eq!(out.remote_copy.unwrap(), Vec::<u8>::new());
    assert_eq!(c.file_list_len(), 1);
}

#[test]
fn truncated_file_list_is_a_protocol_error() {
    let mut c = Client::new();
    let mut body = vec![1, 0, 0, 0];
    for u in "FileGroupDescriptorW".encode_utf16() {
        body.extend_from_slice(&u.to_le_bytes());
    }
    body.extend_from_slice(&[0, 0]);
    c.handle_message(&message(2, 0, &body)).unwrap();
    let r = c.handle_message(&message(5, CB_RESPONSE_OK, &[1, 0, 0, 0, 0, 0]));
    assert!(matches!(r, Err(ErrorKind::Protocol)));
    assert_eq!(c.file_list_len(), 0);
}

#[test]
fn missing_format_is_invalid_data() {
    let mut c = Client::new();
    let r = c.handle_message(&message(4, 0, &CF_OEMTEXT.to_le_bytes()));
    assert!(matches!(r, Err(ErrorKind::InvalidData)));
}

#[test]
fn unknown_message_type_is_a_protocol_error() {
    let mut c = Client::new();
    assert!(matches!(c.handle_message(&message(12, 0, &[])), Err(ErrorKind::Protocol)));
    assert!(matches!(c.handle_message(&message(1, 8, &[])), Err(ErrorKind::Protocol)));
    assert!(matches!(c.handle_message(&vec![1, 0, 0]), Err(ErrorKind::Protocol)));
}

#[test]
fn failed_data_response_is_ignored() {
    let mut c = Client::new();
    let out = c.handle_message(&message(5, 2, b"abc\0")).unwrap();
    assert!(out.remote_copy.is_none());
    assert!(out.responses.is_empty());
}

#[test]
fn reads_a_message_split_over_chunks() {
    let mut c = Client::new();
    let msg = message(5, CB_RESPONSE_OK, b"hello\0");
    let mut first = Vec::new();
    first.extend_from_slice(&(msg.len() as u32).to_le_bytes());
    first.extend_from_slice(&0x11u32.to_le_bytes());
    first.extend_from_slice(&msg[..5]);
    let mut second = Vec::new();
    second.extend_from_slice(&(msg.len() as u32).to_le_bytes());
    second.extend_from_slice(&0x12u32.to_le_bytes());
    second.extend_from_slice(&msg[5..]);
    let out = c.read(&first).unwrap();
    assert!(out.remote_copy.is_none());
    let out = c.read(&second).unwrap();
    assert_eq!(out.remote_copy.unwrap(), b"hello".to_vec());
}
