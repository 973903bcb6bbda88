use rdpclient::channel::{channel_kind, ChannelKind};
use rdpclient::error::ErrorKind;
use rdpclient::vchan::{encode_chunks, Reassembler, CHANNEL_CHUNK_LENGTH};

fn u32_at(b: &[u8], at: usize) -> u32 {
    u32::from_le_bytes([b[at], b[at + 1], b[at + 2], b[at + 3]])
}

fn chunk(total: u32, flags: u32, body: &[u8]) -> Vec<u8> {
    let mut c = Vec::new();
    c.extend_from_slice(&total.to_le_bytes());
    c.extend_from_slice(&flags.to_le_bytes());
    c.extend_from_slice(body);
    c
}

#[test]
fn chunks_reassemble_to_the_payload() {
    for n in [0usize, 1, 100, CHANNEL_CHUNK_LENGTH, CHANNEL_CHUNK_LENGTH + 1, 3 * CHANNEL_CHUNK_LENGTH + 7] {
        for show in [false, true] {
            let payload: Vec<u8> = (0..n).map(|i| (i * 7 % 251) as u8).collect();
            let chunks = encode_chunks(&payload, show);
            let expected_count = if n == 0 { 1 } else { (n - 1) / CHANNEL_CHUNK_LENGTH + 1 };
            assert_eq!(chunks.len(), expected_count);
            let mut r = Reassembler::new();
            for (i, c) in chunks.iter().enumerate() {
                assert_eq!(u32_at(c, 0) as usize, n);
                let flags = u32_at(c, 4);
                assert_eq!(flags & 1 != 0, i == 0);
                assert_eq!(flags & 2 != 0, i + 1 == chunks.len());
                assert_eq!(flags & 0x10 != 0, show);
                let out = r.reassemble(c).unwrap();
                if i + 1 == chunks.len() {
                    assert_eq!(out.unwrap(), payload);
                } else {
                    assert!(out.is_none());
                }
            }
        }
    }
}

#[test]
fn last_without_first_is_refused() {
    let mut r = Reassembler::new();
    assert!(matches!(r.reassemble(&chunk(3, 2, b"abc")), Err(ErrorKind::Protocol)));
}

#[test]
fn more_bytes_than_declared_are_refused() {
    let mut r = Reassembler::new();
    assert!(r.reassemble(&chunk(4, 1, b"abc")).unwrap().is_none());
    assert!(matches!(r.reassemble(&chunk(4, 2, b"de")), Err(ErrorKind::Protocol)));
    // the refused chunk changed nothing: a fitting last chunk completes the PDU
    assert_eq!(r.reassemble(&chunk(4, 2, b"d")).unwrap().unwrap(), b"abcd".to_vec());
}

#[test]
fn oversized_and_short_chunks_are_refused() {
    let mut r = Reassembler::new();
    let big = chunk(u32::MAX, 3, &vec![0u8; 2 * 1024 * 1024]);
    assert!(matches!(r.reassemble(&big), Err(ErrorKind::Protocol)));
    assert!(matches!(r.reassemble(&vec![1, 2, 3]), Err(ErrorKind::Protocol)));
}

#[test]
fn first_chunk_restarts_the_buffer() {
    let mut r = Reassembler::new();
    assert!(r.reassemble(&chunk(10, 1, b"stale")).unwrap().is_none());
    assert_eq!(r.reassemble(&chunk(2, 3, b"ok")).unwrap().unwrap(), b"ok".to_vec());
}

#[test]
fn channels_are_routed_by_name() {
    assert_eq!(channel_kind("cliprdr").unwrap(), ChannelKind::Clipboard);
    assert_eq!(channel_kind("rdpdr").unwrap(), ChannelKind::DeviceRedirection);
    assert_eq!(channel_kind("rdpsnd").unwrap(), ChannelKind::Audio);
    assert!(matches!(channel_kind("drdynvc"), Err(ErrorKind::Protocol)));
}
