//! The clipboard virtual channel (CLIPRDR) client.
use crate::error::{ErrorKind, RdpResult};
use crate::vchan::{
    encode_chunks, reassembly_fails, reassembly_next, reassembly_output, spec_chunks, Reassembler,
    ReassemblyState,
};
use crate::wire::{
    copy_range, push_all, push_u16, push_u32, push_utf16, push_zeros, read_u16, read_u32, read_u64,
    u16_at, u32_at, u64_at, utf16le, bounded_units, read_bounded_units,
};
use std::collections::HashMap;
use vstd::bytes::*;
use vstd::prelude::*;

verus! {

broadcast use vstd::std_specs::hash::group_hash_axioms;

pub const CHANNEL_NAME: &'static str = "cliprdr";

pub const CB_RESPONSE_OK: u16 = 0x1;

pub const CB_RESPONSE_FAIL: u16 = 0x2;

pub const CB_ASCII_NAMES: u16 = 0x4;

/// Clipboard format id of OEM text.
pub const CF_OEMTEXT: u32 = 7;

/// Clipboard format id of plain text.
pub const CF_TEXT: u32 = 1;

pub const CB_CAPS_VERSION_2: u32 = 2;

pub const CB_USE_LONG_FORMAT_NAMES: u32 = 0x2;

pub const CB_STREAM_FILECLIP_ENABLED: u32 = 0x4;

pub const CB_FILECLIP_NO_FILE_PATHS: u32 = 0x8;

pub const CB_CAN_LOCK_CLIPDATA: u32 = 0x10;

pub const CB_HUGE_FILE_SUPPORT_ENABLED: u32 = 0x20;

/// Size of one file descriptor in a file list.
pub const FILE_DESCRIPTOR_SIZE: usize = 592;

/// Length of the clipboard PDU header.
pub const CLIPBOARD_HEADER_LENGTH: usize = 8;

/// The format name that announces a list of files, as UTF-16 code units
/// ("FileGroupDescriptorW").
pub open spec fn file_list_format_name() -> Seq<u16> {
    seq![
        70u16, 105, 108, 101, 71, 114, 111, 117, 112, 68, 101, 115, 99, 114, 105, 112, 116,
        111, 114, 87,
    ]
}

pub fn file_list_format_name_units() -> (r: Vec<u16>)
    ensures
        r@ == file_list_format_name(),
{
    let r: Vec<u16> = vec![
        70u16, 105, 108, 101, 71, 114, 111, 117, 112, 68, 101, 115, 99, 114, 105, 112, 116,
        111, 114, 87,
    ];
    assert(r@ =~= file_list_format_name());
    r
}

/// The type of a clipboard PDU.
#[derive(Clone, Copy, Debug, PartialEq, Eq, Structural)]
pub enum ClipboardPduType {
    MonitorReady,
    FormatList,
    FormatListResponse,
    FormatDataRequest,
    FormatDataResponse,
    TempDirectory,
    ClipCaps,
    FileContentsRequest,
    FileContentsResponse,
    LockClipdata,
    UnlockClipdata,
}

impl ClipboardPduType {
    pub open spec fn spec_code(self) -> u16 {
        match self {
            ClipboardPduType::MonitorReady => 1,
            ClipboardPduType::FormatList => 2,
            ClipboardPduType::FormatListResponse => 3,
            ClipboardPduType::FormatDataRequest => 4,
            ClipboardPduType::FormatDataResponse => 5,
            ClipboardPduType::TempDirectory => 6,
            ClipboardPduType::ClipCaps => 7,
            ClipboardPduType::FileContentsRequest => 8,
            ClipboardPduType::FileContentsResponse => 9,
            ClipboardPduType::LockClipdata => 10,
            ClipboardPduType::UnlockClipdata => 11,
        }
    }

    pub fn code(self) -> (r: u16)
        ensures
            r == self.spec_code(),
    {
        match self {
            ClipboardPduType::MonitorReady => 1,
            ClipboardPduType::FormatList => 2,
            ClipboardPduType::FormatListResponse => 3,
            ClipboardPduType::FormatDataRequest => 4,
            ClipboardPduType::FormatDataResponse => 5,
            ClipboardPduType::TempDirectory => 6,
            ClipboardPduType::ClipCaps => 7,
            ClipboardPduType::FileContentsRequest => 8,
            ClipboardPduType::FileContentsResponse => 9,
            ClipboardPduType::LockClipdata => 10,
            ClipboardPduType::UnlockClipdata => 11,
        }
    }

    pub fn from_code(v: u16) -> (r: Option<ClipboardPduType>)
        ensures
            (1 <= v <= 11) == r is Some,
            r matches Some(t) ==> t.spec_code() == v,
    {
        match v {
            1 => Some(ClipboardPduType::MonitorReady),
            2 => Some(ClipboardPduType::FormatList),
            3 => Some(ClipboardPduType::FormatListResponse),
            4 => Some(ClipboardPduType::FormatDataRequest),
            5 => Some(ClipboardPduType::FormatDataResponse),
            6 => Some(ClipboardPduType::TempDirectory),
            7 => Some(ClipboardPduType::ClipCaps),
            8 => Some(ClipboardPduType::FileContentsRequest),
            9 => Some(ClipboardPduType::FileContentsResponse),
            10 => Some(ClipboardPduType::LockClipdata),
            11 => Some(ClipboardPduType::UnlockClipdata),
            _ => None,
        }
    }

    /// The header flags that an outbound message of this type carries.
    pub open spec fn spec_outbound_flags(self) -> u16 {
        match self {
            ClipboardPduType::FormatDataResponse => CB_RESPONSE_OK,
            ClipboardPduType::FormatListResponse => CB_RESPONSE_OK,
            ClipboardPduType::FileContentsResponse => CB_RESPONSE_FAIL,
            _ => 0,
        }
    }

    /// Whether the chunks of an outbound message of this type carry SHOW_PROTOCOL.
    pub open spec fn spec_shows_protocol(self) -> bool {
        match self {
            ClipboardPduType::FormatList => true,
            ClipboardPduType::ClipCaps => true,
            ClipboardPduType::FormatDataRequest => true,
            ClipboardPduType::FormatDataResponse => true,
            _ => false,
        }
    }
}

/// The header present in all clipboard PDUs.
#[derive(Clone, Copy, Debug, PartialEq, Eq, Structural)]
pub struct ClipboardPduHeader {
    pub msg_type: ClipboardPduType,
    pub msg_flags: u16,
    pub data_len: u32,
}

pub open spec fn spec_clipboard_header(msg_type: ClipboardPduType, msg_flags: u16, data_len: u32) -> Seq<u8> {
    spec_u16_to_le_bytes(msg_type.spec_code()) + spec_u16_to_le_bytes(msg_flags)
        + spec_u32_to_le_bytes(data_len)
}

impl ClipboardPduHeader {
    pub fn encode(&self) -> (r: Vec<u8>)
        ensures
            r@ == spec_clipboard_header(self.msg_type, self.msg_flags, self.data_len),
    {
        let mut w: Vec<u8> = Vec::new();
        push_u16(&mut w, self.msg_type.code());
        push_u16(&mut w, self.msg_flags);
        push_u32(&mut w, self.data_len);
        proof {
            assert(w@ =~= spec_clipboard_header(self.msg_type, self.msg_flags, self.data_len));
        }
        w
    }
}

/// The inner bytes of an outbound message: header, then payload.
pub open spec fn spec_message_inner(msg_type: ClipboardPduType, payload: Seq<u8>) -> Seq<u8> {
    spec_clipboard_header(msg_type, msg_type.spec_outbound_flags(), payload.len() as u32) + payload
}

/// The chunks of an outbound message.
pub open spec fn spec_message(msg_type: ClipboardPduType, payload: Seq<u8>) -> Seq<Seq<u8>> {
    spec_chunks(spec_message_inner(msg_type, payload), msg_type.spec_shows_protocol())
}

/// Wraps `payload` in a clipboard header with the flags its type calls for and
/// splits it into channel chunks.
pub fn encode_message(msg_type: ClipboardPduType, payload: &Vec<u8>) -> (r: Vec<Vec<u8>>)
    requires
        payload@.len() + CLIPBOARD_HEADER_LENGTH <= u32::MAX,
    ensures
        r.deep_view() == spec_message(msg_type, payload@),
{
    let msg_flags: u16 = match msg_type {
        ClipboardPduType::FormatDataResponse => CB_RESPONSE_OK,
        ClipboardPduType::FormatListResponse => CB_RESPONSE_OK,
        ClipboardPduType::FileContentsResponse => CB_RESPONSE_FAIL,
        _ => 0,
    };
    let show_protocol = match msg_type {
        ClipboardPduType::FormatList => true,
        ClipboardPduType::ClipCaps => true,
        ClipboardPduType::FormatDataRequest => true,
        ClipboardPduType::FormatDataResponse => true,
        _ => false,
    };
    let header = ClipboardPduHeader { msg_type, msg_flags, data_len: payload.len() as u32 };
    let mut inner = header.encode();
    proof {
        lemma_auto_spec_u16_to_from_le_bytes();
        lemma_auto_spec_u32_to_from_le_bytes();
    }
    push_all(&mut inner, payload);
    encode_chunks(&inner, show_protocol)
}

/// A long format name: a format id and its name as UTF-16 code units, empty
/// when the format has no name.
#[derive(Clone, Debug)]
pub struct LongFormatName {
    pub format_id: u32,
    pub format_name: Vec<u16>,
}

pub open spec fn spec_long_format_name(format_id: u32, name: Seq<u16>) -> Seq<u8> {
    spec_u32_to_le_bytes(format_id) + utf16le(name) + spec_u16_to_le_bytes(0)
}

impl LongFormatName {
    pub fn id(id: u32) -> (r: LongFormatName)
        ensures
            r.format_id == id,
            r.format_name@.len() == 0,
    {
        LongFormatName { format_id: id, format_name: Vec::new() }
    }

    pub fn encode(&self) -> (r: Vec<u8>)
        ensures
            r@ == spec_long_format_name(self.format_id, self.format_name@),
    {
        let mut w: Vec<u8> = Vec::new();
        push_u32(&mut w, self.format_id);
        push_utf16(&mut w, &self.format_name);
        push_u16(&mut w, 0);
        proof {
            assert(w@ =~= spec_long_format_name(self.format_id, self.format_name@));
        }
        w
    }
}

/// A short format name: a format id and 32 bytes of name.
#[derive(Clone, Debug)]
pub struct ShortFormatName {
    pub format_id: u32,
    pub format_name: Vec<u8>,
}

impl ShortFormatName {
    pub fn id(id: u32) -> (r: ShortFormatName)
        ensures
            r.format_id == id,
            r.format_name@ == Seq::new(32, |_i: int| 0u8),
    {
        let mut name: Vec<u8> = Vec::new();
        push_zeros(&mut name, 32);
        proof {
            assert(name@ =~= Seq::new(32, |_i: int| 0u8));
        }
        ShortFormatName { format_id: id, format_name: name }
    }

    pub fn encode(&self) -> (r: Vec<u8>)
        ensures
            r@ == spec_u32_to_le_bytes(self.format_id) + self.format_name@,
    {
        let mut w: Vec<u8> = Vec::new();
        push_u32(&mut w, self.format_id);
        push_all(&mut w, &self.format_name);
        proof {
            assert(w@ =~= spec_u32_to_le_bytes(self.format_id) + self.format_name@);
        }
        w
    }
}

/// The model of a long format name: its id and its name's code units.
pub open spec fn name_view(n: LongFormatName) -> (u32, Seq<u16>) {
    (n.format_id, n.format_name@)
}

pub open spec fn names_view(names: Seq<LongFormatName>) -> Seq<(u32, Seq<u16>)> {
    names.map_values(|n: LongFormatName| name_view(n))
}

/// The body of a format list PDU: its long format names, one after the other.
pub open spec fn spec_format_list(names: Seq<(u32, Seq<u16>)>) -> Seq<u8>
    decreases names.len(),
{
    if names.len() == 0 {
        Seq::empty()
    } else {
        spec_format_list(names.drop_last()) + spec_long_format_name(
            names.last().0,
            names.last().1,
        )
    }
}

/// Encodes the body of a format list PDU.
pub fn encode_format_list(names: &Vec<LongFormatName>) -> (r: Vec<u8>)
    ensures
        r@ == spec_format_list(names_view(names@)),
{
    let mut w: Vec<u8> = Vec::new();
    let mut i: usize = 0;
    while i < names.len()
        invariant
            i <= names@.len(),
            w@ == spec_format_list(names_view(names@.subrange(0, i as int))),
        decreases names@.len() - i,
    {
        let b = names[i].encode();
        push_all(&mut w, &b);
        proof {
            let v = names_view(names@.subrange(0, i + 1));
            assert(v.drop_last() =~= names_view(names@.subrange(0, i as int)));
            assert(v.last() == name_view(names@[i as int]));
        }
        i = i + 1;
    }
    proof {
        assert(names@.subrange(0, names@.len() as int) =~= names@);
    }
    w
}

/// The general clipboard capability set.
#[derive(Clone, Copy, Debug, PartialEq, Eq, Structural)]
pub struct GeneralClipboardCapabilitySet {
    pub version: u32,
    pub flags: u32,
}

/// The clipboard capabilities PDU: none or one general capability set.
#[derive(Clone, Copy, Debug, PartialEq, Eq, Structural)]
pub struct ClipboardCapabilitiesPdu {
    pub general: Option<GeneralClipboardCapabilitySet>,
}

pub open spec fn spec_capabilities(general: Option<GeneralClipboardCapabilitySet>) -> Seq<u8> {
    match general {
        None => spec_u16_to_le_bytes(0) + spec_u16_to_le_bytes(0),
        Some(set) => spec_u16_to_le_bytes(1) + spec_u16_to_le_bytes(0) + spec_u16_to_le_bytes(1)
            + spec_u16_to_le_bytes(12) + spec_u32_to_le_bytes(CB_CAPS_VERSION_2)
            + spec_u32_to_le_bytes(set.flags),
    }
}

impl ClipboardCapabilitiesPdu {
    pub fn encode(&self) -> (r: Vec<u8>)
        ensures
            r@ == spec_capabilities(self.general),
    {
        let mut w: Vec<u8> = Vec::new();
        match self.general {
            None => {
                push_u16(&mut w, 0);
                push_u16(&mut w, 0);
            },
            Some(set) => {
                push_u16(&mut w, 1);
                push_u16(&mut w, 0);
                push_u16(&mut w, 1);
                push_u16(&mut w, 12);
                push_u32(&mut w, CB_CAPS_VERSION_2);
                push_u32(&mut w, set.flags);
            },
        }
        proof {
            assert(w@ =~= spec_capabilities(self.general));
        }
        w
    }
}

/// The capabilities this client advertises.
pub open spec fn client_capability_flags() -> u32 {
    CB_USE_LONG_FORMAT_NAMES | CB_STREAM_FILECLIP_ENABLED
}

/// One line ending of OEM text: a LF that no CR precedes becomes CR LF.
pub open spec fn crlf_piece(s: Seq<u8>, i: int) -> Seq<u8> {
    if s[i] == 10 && (i == 0 || s[i - 1] != 13) {
        seq![13u8, 10u8]
    } else {
        seq![s[i]]
    }
}

/// `s` with every LF that no CR precedes turned into CR LF.
pub open spec fn lf_to_crlf(s: Seq<u8>) -> Seq<u8>
    decreases s.len(),
{
    if s.len() == 0 {
        Seq::empty()
    } else {
        lf_to_crlf(s.drop_last()) + crlf_piece(s, s.len() - 1)
    }
}

/// The OEM text cached for local clipboard data: CRLF line endings and a
/// trailing NUL.
pub open spec fn oem_text(data: Seq<u8>) -> Seq<u8> {
    let c = lf_to_crlf(data);
    if c.len() == 0 || c.last() != 0 {
        c.push(0)
    } else {
        c
    }
}

/// Every LF in `s` has a CR before it.
pub open spec fn lf_preceded_by_cr(s: Seq<u8>) -> bool {
    forall|j: int| 0 <= j < s.len() && #[trigger] s[j] == 10 ==> j > 0 && s[j - 1] == 13
}

proof fn lemma_crlf_last(s: Seq<u8>)
    requires
        s.len() > 0,
    ensures
        lf_to_crlf(s).len() > 0,
        lf_to_crlf(s).last() == s.last(),
{
    reveal_with_fuel(lf_to_crlf, 1);
}

proof fn lemma_crlf_output(s: Seq<u8>)
    ensures
        lf_preceded_by_cr(lf_to_crlf(s)),
    decreases s.len(),
{
    if s.len() > 0 {
        let prev = s.drop_last();
        lemma_crlf_output(prev);
        let i = s.len() - 1;
        let out = lf_to_crlf(s);
        let a = lf_to_crlf(prev);
        let p = crlf_piece(s, i);
        assert(out == a + p);
        assert forall|j: int| 0 <= j < out.len() && #[trigger] out[j] == 10 implies j > 0 && out[j
            - 1] == 13 by {
            if j < a.len() {
                assert(a[j] == 10);
            } else if j == a.len() {
                if p.len() == 1 {
                    assert(s[i] == 10);
                    assert(i > 0 && s[i - 1] == 13);
                    lemma_crlf_last(prev);
                    assert(prev.last() == s[i - 1]);
                }
            }
        }
    }
}

proof fn lemma_crlf_fixed(s: Seq<u8>)
    requires
        lf_preceded_by_cr(s),
    ensures
        lf_to_crlf(s) == s,
    decreases s.len(),
{
    if s.len() > 0 {
        let prev = s.drop_last();
        assert(lf_preceded_by_cr(prev)) by {
            assert forall|j: int| 0 <= j < prev.len() && #[trigger] prev[j] == 10 implies j > 0
                && prev[j - 1] == 13 by {
                assert(s[j] == 10);
            }
        }
        lemma_crlf_fixed(prev);
        let i = s.len() - 1;
        assert(crlf_piece(s, i) =~= seq![s[i]]);
        assert(lf_to_crlf(s) =~= s);
    }
}

/// Caching local clipboard data is idempotent: the OEM text of OEM text is
/// itself, so existing CR LF pairs and an existing trailing NUL are kept.
pub proof fn lemma_oem_text_idempotent(data: Seq<u8>)
    ensures
        oem_text(oem_text(data)) == oem_text(data),
{
    let c = lf_to_crlf(data);
    lemma_crlf_output(data);
    let o = oem_text(data);
    assert(lf_preceded_by_cr(o)) by {
        assert forall|j: int| 0 <= j < o.len() && #[trigger] o[j] == 10 implies j > 0 && o[j - 1]
            == 13 by {
            if j < c.len() {
                assert(c[j] == 10);
            }
        }
    }
    lemma_crlf_fixed(o);
}

/// The converted form of local clipboard data, as `oem_text` states it.
pub fn convert_to_oem_text(data: &Vec<u8>) -> (r: Vec<u8>)
    ensures
        r@ == oem_text(data@),
{
    let mut converted: Vec<u8> = Vec::new();
    let mut i: usize = 0;
    while i < data.len()
        invariant
            i <= data@.len(),
            converted@ == lf_to_crlf(data@.subrange(0, i as int)),
        decreases data@.len() - i,
    {
        let b = data[i];
        if b == 10 && (i == 0 || data[i - 1] != 13) {
            converted.push(13);
        }
        converted.push(b);
        proof {
            let s = data@.subrange(0, i + 1);
            assert(s.drop_last() =~= data@.subrange(0, i as int));
            assert(crlf_piece(s, i as int) =~= crlf_piece(data@, i as int));
            assert(converted@ =~= lf_to_crlf(s));
        }
        i = i + 1;
    }
    proof {
        assert(data@.subrange(0, data@.len() as int) =~= data@);
    }
    let n = converted.len();
    if n == 0 || converted[n - 1] != 0 {
        converted.push(0);
    }
    converted
}

/// The header at the start of `b`, if it is well formed: a known message type
/// and no flag bits beyond the three defined ones.
pub open spec fn spec_decode_header(b: Seq<u8>) -> Option<ClipboardPduHeader> {
    if b.len() < 8 {
        None
    } else {
        let code = u16_at(b, 0);
        let flags = u16_at(b, 2);
        if !(1 <= code <= 11) || flags & 0xfff8u16 != 0 {
            None
        } else {
            Some(
                ClipboardPduHeader {
                    msg_type: choose|t: ClipboardPduType| t.spec_code() == code,
                    msg_flags: flags,
                    data_len: u32_at(b, 4),
                },
            )
        }
    }
}

impl ClipboardPduHeader {
    pub fn decode(b: &Vec<u8>) -> (r: RdpResult<ClipboardPduHeader>)
        ensures
            r matches Ok(h) ==> spec_decode_header(b@) == Some(h),
            r is Err ==> spec_decode_header(b@) is None && r == Err::<ClipboardPduHeader, ErrorKind>(
                ErrorKind::Protocol,
            ),
    {
        let code = match read_u16(b, 0) {
            Some(v) => v,
            None => return Err(ErrorKind::Protocol),
        };
        let flags = match read_u16(b, 2) {
            Some(v) => v,
            None => return Err(ErrorKind::Protocol),
        };
        let data_len = match read_u32(b, 4) {
            Some(v) => v,
            None => return Err(ErrorKind::Protocol),
        };
        let msg_type = match ClipboardPduType::from_code(code) {
            Some(t) => t,
            None => return Err(ErrorKind::Protocol),
        };
        if flags & 0xfff8u16 != 0 {
            return Err(ErrorKind::Protocol);
        }
        let h = ClipboardPduHeader { msg_type, msg_flags: flags, data_len };
        proof {
            let t = choose|t: ClipboardPduType| t.spec_code() == code;
            assert(t.spec_code() == code);
            assert(t == msg_type);
        }
        Ok(h)
    }
}

/// The capabilities in `b`, if well formed: zero sets, or one general set of
/// length 12 whose flags hold only defined bits.
pub open spec fn spec_decode_capabilities(b: Seq<u8>) -> Option<ClipboardCapabilitiesPdu> {
    if b.len() < 4 {
        None
    } else if u16_at(b, 0) == 0 {
        Some(ClipboardCapabilitiesPdu { general: None })
    } else if u16_at(b, 0) != 1 || b.len() < 16 || u16_at(b, 4) != 1 || u16_at(b, 6) != 12
        || u32_at(b, 12) & !0x3eu32 != 0 {
        None
    } else {
        Some(
            ClipboardCapabilitiesPdu {
                general: Some(
                    GeneralClipboardCapabilitySet { version: u32_at(b, 8), flags: u32_at(b, 12) },
                ),
            },
        )
    }
}

impl ClipboardCapabilitiesPdu {
    pub fn decode(b: &Vec<u8>) -> (r: RdpResult<ClipboardCapabilitiesPdu>)
        ensures
            r matches Ok(c) ==> spec_decode_capabilities(b@) == Some(c),
            r is Err ==> spec_decode_capabilities(b@) is None && r == Err::<
                ClipboardCapabilitiesPdu,
                ErrorKind,
            >(ErrorKind::Protocol),
    {
        let count = match read_u16(b, 0) {
            Some(v) => v,
            None => return Err(ErrorKind::Protocol),
        };
        if b.len() < 4 {
            return Err(ErrorKind::Protocol);
        }
        if count == 0 {
            return Ok(ClipboardCapabilitiesPdu { general: None });
        }
        if count != 1 || b.len() < 16 {
            return Err(ErrorKind::Protocol);
        }
        let set_type = read_u16(b, 4).unwrap();
        let length = read_u16(b, 6).unwrap();
        let version = read_u32(b, 8).unwrap();
        let flags = read_u32(b, 12).unwrap();
        if set_type != 1 || length != 12 || flags & !0x3eu32 != 0 {
            return Err(ErrorKind::Protocol);
        }
        Ok(ClipboardCapabilitiesPdu { general: Some(GeneralClipboardCapabilitySet { version, flags }) })
    }
}

/// The NUL-terminated UTF-16 string at `pos` and the position after its
/// terminator, if a terminator comes before the end of `b`.
pub open spec fn parse_units(b: Seq<u8>, pos: int) -> Option<(Seq<u16>, int)>
    decreases b.len() - pos,
{
    if pos < 0 || pos + 2 > b.len() {
        None
    } else if u16_at(b, pos) == 0 {
        Some((Seq::empty(), pos + 2))
    } else {
        match parse_units(b, pos + 2) {
            Some((u, e)) => Some((seq![u16_at(b, pos)] + u, e)),
            None => None,
        }
    }
}

proof fn lemma_parse_units_end(b: Seq<u8>, pos: int)
    requires
        parse_units(b, pos) is Some,
    ensures
        pos + 2 <= parse_units(b, pos).unwrap().1 <= b.len(),
    decreases b.len() - pos,
{
    if u16_at(b, pos) != 0 {
        lemma_parse_units_end(b, pos + 2);
    }
}

/// The long format names of a format list body, read from `pos` to its end.
pub open spec fn parse_format_names(b: Seq<u8>, pos: int) -> Option<Seq<(u32, Seq<u16>)>>
    decreases b.len() - pos,
{
    if pos < 0 || pos > b.len() {
        None
    } else if pos == b.len() {
        Some(Seq::empty())
    } else if pos + 4 > b.len() {
        None
    } else {
        match parse_units(b, pos + 4) {
            None => None,
            Some((u, e)) => if pos < e <= b.len() {
                match parse_format_names(b, e) {
                    None => None,
                    Some(rest) => Some(seq![(u32_at(b, pos), u)] + rest),
                }
            } else {
                None
            },
        }
    }
}

/// Reads the NUL-terminated UTF-16 string at `pos`.
fn read_units(b: &Vec<u8>, pos: usize) -> (r: Option<(Vec<u16>, usize)>)
    ensures
        match r {
            Some((u, e)) => parse_units(b@, pos as int) == Some((u@, e as int)),
            None => parse_units(b@, pos as int) is None,
        },
{
    let mut acc: Vec<u16> = Vec::new();
    let mut p: usize = pos;
    loop
        invariant
            pos <= p,
            (p - pos) % 2 == 0,
            parse_units(b@, pos as int) == match parse_units(b@, p as int) {
                Some((u, e)) => Some((acc@ + u, e)),
                None => None,
            },
        decreases b@.len() - p,
    {
        if b.len() < 2 || p > b.len() - 2 {
            return None;
        }
        let unit = read_u16(b, p).unwrap();
        if unit == 0 {
            proof {
                assert(acc@ + Seq::<u16>::empty() =~= acc@);
            }
            return Some((acc, p + 2));
        }
        proof {
            match parse_units(b@, p + 2) {
                Some((u, e)) => {
                    assert(acc@ + (seq![unit] + u) =~= acc@.push(unit) + u);
                },
                None => {},
            }
        }
        acc.push(unit);
        p = p + 2;
    }
}

/// Decodes the body of a format list PDU.
pub fn decode_format_list(b: &Vec<u8>) -> (r: RdpResult<Vec<LongFormatName>>)
    ensures
        r matches Ok(v) ==> parse_format_names(b@, 0) == Some(names_view(v@)),
        r is Err ==> parse_format_names(b@, 0) is None && r == Err::<Vec<LongFormatName>, ErrorKind>(
            ErrorKind::Protocol,
        ),
{
    let mut names: Vec<LongFormatName> = Vec::new();
    let mut pos: usize = 0;
    while pos < b.len()
        invariant
            pos <= b@.len(),
            parse_format_names(b@, 0) == match parse_format_names(b@, pos as int) {
                Some(rest) => Some(names_view(names@) + rest),
                None => None,
            },
        decreases b@.len() - pos,
    {
        if b.len() - pos < 4 {
            return Err(ErrorKind::Protocol);
        }
        let format_id = read_u32(b, pos).unwrap();
        let (units, end) = match read_units(b, pos + 4) {
            Some(x) => x,
            None => return Err(ErrorKind::Protocol),
        };
        proof {
            lemma_parse_units_end(b@, pos + 4);
        }
        let ghost old_names = names@;
        let n = LongFormatName { format_id, format_name: units };
        names.push(n);
        proof {
            assert(names_view(names@) =~= names_view(old_names).push(name_view(n)));
            match parse_format_names(b@, end as int) {
                Some(rest) => {
                    assert(names_view(old_names) + (seq![name_view(n)] + rest) =~= names_view(names@)
                        + rest);
                },
                None => {},
            }
        }
        pos = end;
    }
    proof {
        assert(names_view(names@) + Seq::<(u32, Seq<u16>)>::empty() =~= names_view(names@));
    }
    Ok(names)
}

/// A file descriptor of a file list.
#[derive(Clone, Debug)]
pub struct FileDescriptor {
    pub flags: u32,
    pub file_attributes: u32,
    pub last_write_time: u64,
    pub file_size: u64,
    pub file_name: Vec<u16>,
}

/// The bits of descriptor flags that are defined.
pub const FD_FLAGS_MASK: u32 = 0x4064;

/// The bits of file attributes that are defined.
pub const FILE_ATTRIBUTES_MASK: u32 = 0xb7;

/// The model of a file descriptor.
pub struct FileDescriptorView {
    pub flags: u32,
    pub file_attributes: u32,
    pub last_write_time: u64,
    pub file_size: u64,
    pub file_name: Seq<u16>,
}

pub open spec fn descriptor_view(d: FileDescriptor) -> FileDescriptorView {
    FileDescriptorView {
        flags: d.flags,
        file_attributes: d.file_attributes,
        last_write_time: d.last_write_time,
        file_size: d.file_size,
        file_name: d.file_name@,
    }
}

pub open spec fn descriptors_view(ds: Seq<FileDescriptor>) -> Seq<FileDescriptorView> {
    ds.map_values(|d: FileDescriptor| descriptor_view(d))
}

/// The descriptor that starts at `base`.
pub open spec fn spec_descriptor_at(b: Seq<u8>, base: int) -> FileDescriptorView {
    FileDescriptorView {
        flags: u32_at(b, base) & FD_FLAGS_MASK,
        file_attributes: u32_at(b, base + 36) & FILE_ATTRIBUTES_MASK,
        last_write_time: u64_at(b, base + 56),
        file_size: ((u32_at(b, base + 64) as int) * 0x1_0000_0000 + u32_at(b, base + 68) as int) as u64,
        file_name: bounded_units(b, base + 72, base + 592),
    }
}

/// A file list: a count, then that many descriptors of 592 bytes each.
pub open spec fn spec_file_list(b: Seq<u8>) -> Option<Seq<FileDescriptorView>> {
    if b.len() < 4 || 4 + 592 * (u32_at(b, 0) as int) > b.len() {
        None
    } else {
        Some(Seq::new(u32_at(b, 0) as nat, |k: int| spec_descriptor_at(b, 4 + 592 * k)))
    }
}

/// Decodes a file list.
pub fn decode_file_list(b: &Vec<u8>) -> (r: RdpResult<Vec<FileDescriptor>>)
    ensures
        r matches Ok(v) ==> spec_file_list(b@) == Some(descriptors_view(v@)),
        r is Err ==> spec_file_list(b@) is None && r == Err::<Vec<FileDescriptor>, ErrorKind>(
            ErrorKind::Protocol,
        ),
{
    let count = match read_u32(b, 0) {
        Some(v) => v,
        None => return Err(ErrorKind::Protocol),
    };
    if (count as u64) * 592 + 4 > b.len() as u64 {
        return Err(ErrorKind::Protocol);
    }
    let mut list: Vec<FileDescriptor> = Vec::new();
    let mut k: u32 = 0;
    let blen = b.len();
    while k < count
        invariant
            blen == b@.len(),
            k <= count,
            count == u32_at(b@, 0),
            (count as int) * 592 + 4 <= b@.len(),
            list@.len() == k,
            forall|j: int| 0 <= j < k ==> #[trigger] descriptor_view(list@[j]) == spec_descriptor_at(b@, 4 + 592 * j),
        decreases count - k,
    {
        assert(4 + 592 * (k as int) + 592 <= b@.len()) by (nonlinear_arith)
            requires
                k < count,
                (count as int) * 592 + 4 <= b@.len(),
        ;
        let ku = k as usize;
        assert(592 * (ku as int) + 596 <= blen);
        let base: usize = 4 + 592 * ku;
        let flags = read_u32(b, base).unwrap() & FD_FLAGS_MASK;
        let file_attributes = read_u32(b, base + 36).unwrap() & FILE_ATTRIBUTES_MASK;
        let last_write_time = read_u64(b, base + 56).unwrap();
        let high = read_u32(b, base + 64).unwrap();
        let low = read_u32(b, base + 68).unwrap();
        let file_size: u64 = (high as u64) * 0x1_0000_0000u64 + low as u64;
        let file_name = read_bounded_units(b, base + 72, base + 592);
        list.push(FileDescriptor { flags, file_attributes, last_write_time, file_size, file_name });
        k = k + 1;
    }
    proof {
        assert(descriptors_view(list@) =~= spec_file_list(b@).unwrap());
    }
    Ok(list)
}

/// The chunks of the data requests for `ids`, in order.
pub open spec fn request_messages(ids: Seq<u32>) -> Seq<Seq<u8>>
    decreases ids.len(),
{
    if ids.len() == 0 {
        Seq::empty()
    } else {
        request_messages(ids.drop_last()) + spec_message(
            ClipboardPduType::FormatDataRequest,
            spec_u32_to_le_bytes(ids.last()),
        )
    }
}

/// Whether a listed format is one whose data this client requests: OEM text,
/// or the file list format name.
pub open spec fn is_requested(n: (u32, Seq<u16>)) -> bool {
    n.0 == CF_OEMTEXT || n.1 == file_list_format_name()
}

/// The ids of the listed formats that this client requests, in order.
pub open spec fn request_ids(names: Seq<(u32, Seq<u16>)>) -> Seq<u32>
    decreases names.len(),
{
    if names.len() == 0 {
        Seq::empty()
    } else if is_requested(names.last()) {
        request_ids(names.drop_last()).push(names.last().0)
    } else {
        request_ids(names.drop_last())
    }
}

/// Whether a file list is expected after a format list: OEM text clears the
/// expectation, the file list format name sets it, later entries win.
pub open spec fn expecting_after(names: Seq<(u32, Seq<u16>)>, init: bool) -> bool
    decreases names.len(),
{
    if names.len() == 0 {
        init
    } else if names.last().0 == CF_OEMTEXT {
        false
    } else if names.last().1 == file_list_format_name() {
        true
    } else {
        expecting_after(names.drop_last(), init)
    }
}

/// The replies to a format list: a format list response, then one data request
/// per requested format.
pub open spec fn format_list_responses(names: Seq<(u32, Seq<u16>)>) -> Seq<Seq<u8>> {
    spec_message(ClipboardPduType::FormatListResponse, Seq::empty()) + request_messages(
        request_ids(names),
    )
}

/// The replies to the monitor ready PDU: this client's capabilities, then a
/// format list with one unnamed format of id 0.
pub open spec fn monitor_ready_responses() -> Seq<Seq<u8>> {
    spec_message(
        ClipboardPduType::ClipCaps,
        spec_capabilities(
            Some(
                GeneralClipboardCapabilitySet {
                    version: CB_CAPS_VERSION_2,
                    flags: client_capability_flags(),
                },
            ),
        ),
    ) + spec_message(ClipboardPduType::FormatList, spec_format_list(seq![(0u32, Seq::empty())]))
}

/// `d` without one trailing NUL.
pub open spec fn trim_nul(d: Seq<u8>) -> Seq<u8> {
    if d.len() > 0 && d.last() == 0 {
        d.drop_last()
    } else {
        d
    }
}

/// The model of the clipboard client's state.
pub struct ClipboardView {
    pub cache: Map<u32, Seq<u8>>,
    pub expecting_file_list: bool,
    pub file_list: Seq<FileDescriptorView>,
}

/// What handling one message produces: PDUs to send, and data copied on the
/// remote side for the host clipboard.
pub struct OutputView {
    pub responses: Seq<Seq<u8>>,
    pub remote_copy: Option<Seq<u8>>,
}

pub open spec fn no_output() -> OutputView {
    OutputView { responses: Seq::empty(), remote_copy: None }
}

/// The body of a message whose header declares `data_len` bytes.
pub open spec fn declared_body(rest: Seq<u8>, data_len: u32) -> Option<Seq<u8>> {
    if data_len <= rest.len() {
        Some(rest.subrange(0, data_len as int))
    } else {
        None
    }
}

/// How the clipboard client handles one reassembled message.
pub open spec fn spec_handle_message(st: ClipboardView, msg: Seq<u8>) -> Result<
    (ClipboardView, OutputView),
    ErrorKind,
> {
    match spec_decode_header(msg) {
        None => Err(ErrorKind::Protocol),
        Some(h) => {
            let rest = msg.subrange(8, msg.len() as int);
            match h.msg_type {
                ClipboardPduType::ClipCaps => match spec_decode_capabilities(rest) {
                    None => Err(ErrorKind::Protocol),
                    Some(_) => Ok((st, no_output())),
                },
                ClipboardPduType::MonitorReady => Ok(
                    (st, OutputView { responses: monitor_ready_responses(), remote_copy: None }),
                ),
                ClipboardPduType::FormatList => match declared_body(rest, h.data_len) {
                    None => Err(ErrorKind::Protocol),
                    Some(body) => match parse_format_names(body, 0) {
                        None => Err(ErrorKind::Protocol),
                        Some(names) => Ok(
                            (
                                ClipboardView {
                                    expecting_file_list: expecting_after(
                                        names,
                                        st.expecting_file_list,
                                    ),
                                    ..st
                                },
                                OutputView {
                                    responses: format_list_responses(names),
                                    remote_copy: None,
                                },
                            ),
                        ),
                    },
                },
                ClipboardPduType::FormatDataRequest => if rest.len() < 4 {
                    Err(ErrorKind::Protocol)
                } else if !st.cache.contains_key(u32_at(rest, 0)) || st.cache[u32_at(rest, 0)].len()
                    + 8 > u32::MAX {
                    Err(ErrorKind::InvalidData)
                } else {
                    Ok(
                        (
                            st,
                            OutputView {
                                responses: spec_message(
                                    ClipboardPduType::FormatDataResponse,
                                    st.cache[u32_at(rest, 0)],
                                ),
                                remote_copy: None,
                            },
                        ),
                    )
                },
                ClipboardPduType::FormatDataResponse => if h.msg_flags & CB_RESPONSE_OK == 0 {
                    Ok((st, no_output()))
                } else {
                    match declared_body(rest, h.data_len) {
                        None => Err(ErrorKind::Protocol),
                        Some(body) => if st.expecting_file_list {
                            match spec_file_list(body) {
                                None => Err(ErrorKind::Protocol),
                                Some(list) => Ok(
                                    (
                                        ClipboardView { file_list: st.file_list + list, ..st },
                                        OutputView {
                                            responses: Seq::empty(),
                                            remote_copy: Some(Seq::empty()),
                                        },
                                    ),
                                ),
                            }
                        } else {
                            Ok(
                                (
                                    st,
                                    OutputView {
                                        responses: Seq::empty(),
                                        remote_copy: Some(trim_nul(body)),
                                    },
                                ),
                            )
                        },
                    }
                },
                _ => Ok((st, no_output())),
            }
        },
    }
}

/// What the clipboard client hands back: PDUs to send on the channel, in order,
/// and data copied on the remote side for the host's clipboard.
pub struct ClipboardOutput {
    pub responses: Vec<Vec<u8>>,
    pub remote_copy: Option<Vec<u8>>,
}

impl ClipboardOutput {
    pub open spec fn view(&self) -> OutputView {
        OutputView {
            responses: self.responses.deep_view(),
            remote_copy: match self.remote_copy {
                Some(v) => Some(v@),
                None => None,
            },
        }
    }

    fn empty() -> (r: ClipboardOutput)
        ensures
            r.view() == no_output(),
    {
        let r = ClipboardOutput { responses: Vec::new(), remote_copy: None };
        assert(r.view().responses =~= Seq::<Seq<u8>>::empty());
        r
    }
}

fn append_messages(out: &mut Vec<Vec<u8>>, msgs: Vec<Vec<u8>>)
    ensures
        final(out).deep_view() == old(out).deep_view() + msgs.deep_view(),
{
    let mut msgs = msgs;
    let ghost o = out.deep_view();
    let ghost m = msgs.deep_view();
    out.append(&mut msgs);
    assert(out.deep_view() =~= o + m);
}

/// The clipboard (CLIPRDR) client: caches local clipboard data as OEM text,
/// answers the server's requests, and surfaces data copied on the remote side.
pub struct Client {
    clipboard: HashMap<u32, Vec<u8>>,
    reassembler: Reassembler,
    is_expecting_file_list: bool,
    file_list: Vec<FileDescriptor>,
}

impl Client {
    pub closed spec fn view(&self) -> ClipboardView {
        ClipboardView {
            cache: self.clipboard@.map_values(|v: Vec<u8>| v@),
            expecting_file_list: self.is_expecting_file_list,
            file_list: descriptors_view(self.file_list@),
        }
    }

    pub closed spec fn reassembly(&self) -> ReassemblyState {
        self.reassembler@
    }

    pub fn new() -> (r: Client)
        ensures
            r.view().cache == Map::<u32, Seq<u8>>::empty(),
            !r.view().expecting_file_list,
            r.view().file_list.len() == 0,
    {
        let r = Client {
            clipboard: HashMap::new(),
            reassembler: Reassembler::new(),
            is_expecting_file_list: false,
            file_list: Vec::new(),
        };
        assert(r.view().cache =~= Map::<u32, Seq<u8>>::empty());
        r
    }

    /// The cached data for a format, if any.
    pub fn cached(&self, format_id: u32) -> (r: Option<Vec<u8>>)
        ensures
            match r {
                Some(v) => self.view().cache.contains_key(format_id) && self.view().cache[format_id]
                    == v@,
                None => !self.view().cache.contains_key(format_id),
            },
    {
        match self.clipboard.get(&format_id) {
            Some(d) => {
                let c = d.clone();
                assert(c@ =~= d@);
                Some(c)
            },
            None => None,
        }
    }

    pub fn is_expecting_file_list(&self) -> (r: bool)
        ensures
            r == self.view().expecting_file_list,
    {
        self.is_expecting_file_list
    }

    /// The number of file descriptors received so far.
    pub fn file_list_len(&self) -> (r: usize)
        ensures
            r == self.view().file_list.len(),
    {
        self.file_list.len()
    }

    /// Caches local clipboard data as OEM text and returns the format list PDU
    /// that announces it.
    pub fn update_clipboard(&mut self, data: Vec<u8>) -> (r: RdpResult<Vec<Vec<u8>>>)
        ensures
            final(self).view() == (ClipboardView {
                cache: old(self).view().cache.insert(CF_OEMTEXT, oem_text(data@)),
                ..old(self).view()
            }),
            final(self).reassembly() == old(self).reassembly(),
            r matches Ok(m) && m.deep_view() == spec_message(
                ClipboardPduType::FormatList,
                spec_format_list(seq![(CF_OEMTEXT, Seq::empty())]),
            ),
    {
        let converted = convert_to_oem_text(&data);
        self.clipboard.insert(CF_OEMTEXT, converted);
        let names = vec![LongFormatName::id(CF_OEMTEXT)];
        let body = encode_format_list(&names);
        proof {
            assert(names@.len() == 1);
            assert(names@[0].format_name@ =~= Seq::<u16>::empty());
            assert(names_view(names@) =~= seq![(CF_OEMTEXT, Seq::<u16>::empty())]);
            lemma_single_name_length(CF_OEMTEXT);
            assert(self.view().cache =~= old(self).view().cache.insert(CF_OEMTEXT, oem_text(data@)));
        }
        Ok(encode_message(ClipboardPduType::FormatList, &body))
    }
}

proof fn lemma_single_name_length(id: u32)
    ensures
        spec_format_list(seq![(id, Seq::<u16>::empty())]).len() == 6,
{
    lemma_auto_spec_u16_to_from_le_bytes();
    lemma_auto_spec_u32_to_from_le_bytes();
    let names = seq![(id, Seq::<u16>::empty())];
    assert(names.drop_last() =~= Seq::<(u32, Seq<u16>)>::empty());
    assert(utf16le(Seq::<u16>::empty()) =~= Seq::<u8>::empty());
    reveal_with_fuel(spec_format_list, 2);
    assert(spec_format_list(names.drop_last()) =~= Seq::<u8>::empty());
}

impl Client {
    /// Handles one reassembled message, as `spec_handle_message` states; an
    /// error leaves the state unchanged.
    pub fn handle_message(&mut self, msg: &Vec<u8>) -> (r: RdpResult<ClipboardOutput>)
        ensures
            final(self).reassembly() == old(self).reassembly(),
            r matches Ok(o) ==> spec_handle_message(old(self).view(), msg@) == Ok::<
                (ClipboardView, OutputView),
                ErrorKind,
            >((final(self).view(), o.view())),
            r matches Err(e) ==> spec_handle_message(old(self).view(), msg@) == Err::<
                (ClipboardView, OutputView),
                ErrorKind,
            >(e) && final(self).view() == old(self).view(),
    {
        let header = match ClipboardPduHeader::decode(msg) {
            Ok(h) => h,
            Err(e) => return Err(e),
        };
        let rest = copy_range(msg, CLIPBOARD_HEADER_LENGTH, msg.len());
        match header.msg_type {
            ClipboardPduType::ClipCaps => {
                match ClipboardCapabilitiesPdu::decode(&rest) {
                    Ok(_) => Ok(ClipboardOutput::empty()),
                    Err(e) => Err(e),
                }
            },
            ClipboardPduType::MonitorReady => {
                let responses = self.handle_monitor_ready();
                Ok(ClipboardOutput { responses, remote_copy: None })
            },
            ClipboardPduType::FormatList => {
                if header.data_len as usize > rest.len() {
                    return Err(ErrorKind::Protocol);
                }
                let body = copy_range(&rest, 0, header.data_len as usize);
                self.handle_format_list(&body)
            },
            ClipboardPduType::FormatDataRequest => self.handle_format_data_request(&rest),
            ClipboardPduType::FormatDataResponse => {
                if header.msg_flags & CB_RESPONSE_OK == 0 {
                    return Ok(ClipboardOutput::empty());
                }
                if header.data_len as usize > rest.len() {
                    return Err(ErrorKind::Protocol);
                }
                let body = copy_range(&rest, 0, header.data_len as usize);
                self.handle_format_data_response(body)
            },
            _ => Ok(ClipboardOutput::empty()),
        }
    }

    /// Feeds one inbound chunk; once it completes a message, handles it.
    pub fn read(&mut self, chunk: &Vec<u8>) -> (r: RdpResult<ClipboardOutput>)
        ensures
            reassembly_fails(old(self).reassembly(), chunk@) ==> r == Err::<ClipboardOutput, ErrorKind>(
                ErrorKind::Protocol,
            ) && final(self).view() == old(self).view(),
            !reassembly_fails(old(self).reassembly(), chunk@) ==> {
                &&& final(self).reassembly() == reassembly_next(old(self).reassembly(), chunk@)
                &&& match reassembly_output(old(self).reassembly(), chunk@) {
                    None => r matches Ok(o) && o.view() == no_output() && final(self).view() == old(
                        self,
                    ).view(),
                    Some(msg) => match spec_handle_message(old(self).view(), msg) {
                        Ok((v, o)) => r matches Ok(out) && out.view() == o && final(self).view()
                            == v,
                        Err(e) => r == Err::<ClipboardOutput, ErrorKind>(e) && final(self).view()
                            == old(self).view(),
                    },
                }
            },
    {
        match self.reassembler.reassemble(chunk) {
            Ok(Some(msg)) => self.handle_message(&msg),
            Ok(None) => Ok(ClipboardOutput::empty()),
            Err(e) => Err(e),
        }
    }

    fn handle_monitor_ready(&self) -> (r: Vec<Vec<u8>>)
        ensures
            r.deep_view() == monitor_ready_responses(),
    {
        let caps = ClipboardCapabilitiesPdu {
            general: Some(
                GeneralClipboardCapabilitySet {
                    version: CB_CAPS_VERSION_2,
                    flags: CB_USE_LONG_FORMAT_NAMES | CB_STREAM_FILECLIP_ENABLED,
                },
            ),
        };
        let caps_bytes = caps.encode();
        proof {
            lemma_auto_spec_u16_to_from_le_bytes();
            lemma_auto_spec_u32_to_from_le_bytes();
        }
        let mut result = encode_message(ClipboardPduType::ClipCaps, &caps_bytes);
        let names = vec![LongFormatName::id(0)];
        let body = encode_format_list(&names);
        proof {
            assert(names@.len() == 1);
            assert(names@[0].format_name@ =~= Seq::<u16>::empty());
            assert(names_view(names@) =~= seq![(0u32, Seq::<u16>::empty())]);
            lemma_single_name_length(0);
        }
        let list = encode_message(ClipboardPduType::FormatList, &body);
        append_messages(&mut result, list);
        result
    }

    fn handle_format_list(&mut self, body: &Vec<u8>) -> (r: RdpResult<ClipboardOutput>)
        ensures
            final(self).reassembly() == old(self).reassembly(),
            match parse_format_names(body@, 0) {
                None => r == Err::<ClipboardOutput, ErrorKind>(ErrorKind::Protocol) && final(self).view()
                    == old(self).view(),
                Some(names) => r matches Ok(o) && o.view() == (OutputView {
                    responses: format_list_responses(names),
                    remote_copy: None,
                }) && final(self).view() == (ClipboardView {
                    expecting_file_list: expecting_after(names, old(self).view().expecting_file_list),
                    ..old(self).view()
                }),
            },
    {
        let names = match decode_format_list(body) {
            Ok(v) => v,
            Err(e) => return Err(e),
        };
        let ghost init = self.is_expecting_file_list;
        let empty: Vec<u8> = Vec::new();
        let mut responses = encode_message(ClipboardPduType::FormatListResponse, &empty);
        let file_list_name = file_list_format_name_units();
        let mut i: usize = 0;
        while i < names.len()
            invariant
                i <= names@.len(),
                file_list_name@ == file_list_format_name(),
                self.clipboard == old(self).clipboard,
                self.file_list == old(self).file_list,
                self.reassembler == old(self).reassembler,
                init == old(self).is_expecting_file_list,
                self.is_expecting_file_list == expecting_after(
                    names_view(names@).subrange(0, i as int),
                    init,
                ),
                responses.deep_view() == spec_message(ClipboardPduType::FormatListResponse, Seq::empty())
                    + request_messages(request_ids(names_view(names@).subrange(0, i as int))),
            decreases names@.len() - i,
        {
            let id = names[i].format_id;
            let is_oem = id == CF_OEMTEXT;
            let is_file_list = units_equal(&names[i].format_name, &file_list_name);
            let ghost prefix = names_view(names@).subrange(0, i + 1);
            proof {
                assert(prefix.drop_last() =~= names_view(names@).subrange(0, i as int));
                assert(prefix.last() == name_view(names@[i as int]));
            }
            if is_oem || is_file_list {
                self.is_expecting_file_list = !is_oem;
                let mut req: Vec<u8> = Vec::new();
                push_u32(&mut req, id);
                proof {
                    lemma_auto_spec_u32_to_from_le_bytes();
                    assert(req@ =~= spec_u32_to_le_bytes(id));
                    let ids = request_ids(prefix);
                    assert(ids.drop_last() =~= request_ids(prefix.drop_last()));
                }
                let msgs = encode_message(ClipboardPduType::FormatDataRequest, &req);
                append_messages(&mut responses, msgs);
                proof {
                    let ids = request_ids(prefix);
                    assert(responses.deep_view() =~= spec_message(
                        ClipboardPduType::FormatListResponse,
                        Seq::empty(),
                    ) + request_messages(ids));
                }
            }
            i = i + 1;
        }
        proof {
            assert(names_view(names@).subrange(0, names@.len() as int) =~= names_view(names@));
        }
        Ok(ClipboardOutput { responses, remote_copy: None })
    }

    fn handle_format_data_request(&self, rest: &Vec<u8>) -> (r: RdpResult<ClipboardOutput>)
        ensures
            rest@.len() < 4 ==> r == Err::<ClipboardOutput, ErrorKind>(ErrorKind::Protocol),
            rest@.len() >= 4 ==> {
                let id = u32_at(rest@, 0);
                if !self.view().cache.contains_key(id) || self.view().cache[id].len() + 8 > u32::MAX {
                    r == Err::<ClipboardOutput, ErrorKind>(ErrorKind::InvalidData)
                } else {
                    r matches Ok(o) && o.view() == (OutputView {
                        responses: spec_message(
                            ClipboardPduType::FormatDataResponse,
                            self.view().cache[id],
                        ),
                        remote_copy: None,
                    })
                }
            },
    {
        let id = match read_u32(rest, 0) {
            Some(v) => v,
            None => return Err(ErrorKind::Protocol),
        };
        match self.clipboard.get(&id) {
            Some(d) => {
                if d.len() > 0xffff_fff7usize {
                    return Err(ErrorKind::InvalidData);
                }
                let responses = encode_message(ClipboardPduType::FormatDataResponse, d);
                Ok(ClipboardOutput { responses, remote_copy: None })
            },
            None => Err(ErrorKind::InvalidData),
        }
    }

    fn handle_format_data_response(&mut self, body: Vec<u8>) -> (r: RdpResult<ClipboardOutput>)
        ensures
            final(self).reassembly() == old(self).reassembly(),
            old(self).view().expecting_file_list ==> match spec_file_list(body@) {
                None => r == Err::<ClipboardOutput, ErrorKind>(ErrorKind::Protocol) && final(self).view()
                    == old(self).view(),
                Some(list) => r matches Ok(o) && o.view() == (OutputView {
                    responses: Seq::empty(),
                    remote_copy: Some(Seq::empty()),
                }) && final(self).view() == (ClipboardView {
                    file_list: old(self).view().file_list + list,
                    ..old(self).view()
                }),
            },
            !old(self).view().expecting_file_list ==> (r matches Ok(o) && o.view() == (OutputView {
                responses: Seq::empty(),
                remote_copy: Some(trim_nul(body@)),
            }) && final(self).view() == old(self).view()),
    {
        let mut text = if self.is_expecting_file_list {
            let mut list = match decode_file_list(&body) {
                Ok(v) => v,
                Err(e) => return Err(e),
            };
            let ghost old_list = self.file_list@;
            let ghost added = list@;
            self.file_list.append(&mut list);
            proof {
                assert(descriptors_view(self.file_list@) =~= descriptors_view(old_list)
                    + descriptors_view(added));
            }
            Vec::new()
        } else {
            body
        };
        let n = text.len();
        if n > 0 && text[n - 1] == 0 {
            text.truncate(n - 1);
        }
        let out = ClipboardOutput { responses: Vec::new(), remote_copy: Some(text) };
        proof {
            assert(out.view().responses =~= Seq::<Seq<u8>>::empty());
            assert(out.remote_copy.unwrap()@ =~= trim_nul(
                if old(self).is_expecting_file_list {
                    Seq::<u8>::empty()
                } else {
                    body@
                },
            ));
        }
        Ok(out)
    }
}

/// Whether two strings of code units are equal.
fn units_equal(a: &Vec<u16>, b: &Vec<u16>) -> (r: bool)
    ensures
        r == (a@ == b@),
{
    if a.len() != b.len() {
        return false;
    }
    let mut i: usize = 0;
    while i < a.len()
        invariant
            a@.len() == b@.len(),
            i <= a@.len(),
            forall|j: int| 0 <= j < i ==> a@[j] == b@[j],
        decreases a@.len() - i,
    {
        if a[i] != b[i] {
            return false;
        }
        i = i + 1;
    }
    assert(a@ =~= b@);
    true
}

} // verus!
