//! Virtual-channel framing: the channel PDU header, splitting of outbound
//! payloads into chunks, and reassembly of inbound chunks.
use crate::error::{ErrorKind, RdpResult};
use crate::wire::{copy_range, push_range, push_u32, read_u32, u32_at};
use vstd::bytes::*;
use vstd::prelude::*;

verus! {

/// Largest payload carried by one chunk.
pub const CHANNEL_CHUNK_LENGTH: usize = 16384;

/// Largest inbound chunk accepted on a virtual channel.
pub const MAX_ALLOWED_VCHAN_MSG_SIZE: usize = 2097152;

pub const CHANNEL_FLAG_FIRST: u32 = 0x1;

pub const CHANNEL_FLAG_LAST: u32 = 0x2;

pub const CHANNEL_FLAG_SHOW_PROTOCOL: u32 = 0x10;

/// Length of the channel PDU header.
pub const CHANNEL_HEADER_LENGTH: usize = 8;

pub open spec fn spec_channel_header(length: u32, flags: u32) -> Seq<u8> {
    spec_u32_to_le_bytes(length) + spec_u32_to_le_bytes(flags)
}

/// Number of chunks for a payload of `n` bytes: an empty payload still takes one.
pub open spec fn chunk_count(n: nat) -> nat {
    if n == 0 {
        1
    } else {
        ((n - 1) as nat / CHANNEL_CHUNK_LENGTH as nat) + 1
    }
}

pub open spec fn chunk_end(n: nat, i: nat) -> int {
    if (i + 1) * CHANNEL_CHUNK_LENGTH >= n {
        n as int
    } else {
        (i + 1) * CHANNEL_CHUNK_LENGTH
    }
}

pub open spec fn chunk_flags(n: nat, i: nat, show_protocol: bool) -> u32 {
    (if show_protocol {
        CHANNEL_FLAG_SHOW_PROTOCOL
    } else {
        0u32
    }) | (if i == 0 {
        CHANNEL_FLAG_FIRST
    } else {
        0u32
    }) | (if i + 1 == chunk_count(n) {
        CHANNEL_FLAG_LAST
    } else {
        0u32
    })
}

/// Chunk `i` of `payload`: a header carrying the total length, then its slice.
pub open spec fn spec_chunk(payload: Seq<u8>, show_protocol: bool, i: nat) -> Seq<u8> {
    spec_channel_header(payload.len() as u32, chunk_flags(payload.len(), i, show_protocol))
        + payload.subrange(i * CHANNEL_CHUNK_LENGTH, chunk_end(payload.len(), i))
}

/// All chunks of `payload`, in order.
pub open spec fn spec_chunks(payload: Seq<u8>, show_protocol: bool) -> Seq<Seq<u8>> {
    Seq::new(chunk_count(payload.len()), |i: int| spec_chunk(payload, show_protocol, i as nat))
}

proof fn lemma_last_chunk(n: nat, i: nat)
    requires
        i < chunk_count(n),
    ensures
        (i + 1 == chunk_count(n)) <==> ((i + 1) * CHANNEL_CHUNK_LENGTH >= n),
        i * CHANNEL_CHUNK_LENGTH <= n,
{
    if n > 0 {
        let q = (n - 1) as nat / 16384;
        assert((n - 1) as nat == q * 16384 + (n - 1) as nat % 16384);
        assert(i * 16384 <= q * 16384) by (nonlinear_arith)
            requires
                i <= q,
        ;
        if i + 1 < chunk_count(n) {
            assert((i + 1) * 16384 <= q * 16384) by (nonlinear_arith)
                requires
                    i + 1 <= q,
            ;
        }
    }
}

/// Splits `inner` into chunks of at most `CHANNEL_CHUNK_LENGTH` bytes, each behind a
/// channel header that carries the total length; FIRST marks the first chunk, LAST
/// the last, and SHOW_PROTOCOL is set on all of them when asked for.
pub fn encode_chunks(inner: &Vec<u8>, show_protocol: bool) -> (r: Vec<Vec<u8>>)
    requires
        inner@.len() <= u32::MAX,
    ensures
        r@.len() == chunk_count(inner@.len()),
        forall|i: int| 0 <= i < r@.len() ==> #[trigger] r@[i]@ == spec_chunk(inner@, show_protocol, i as nat),
        r.deep_view() == spec_chunks(inner@, show_protocol),
{
    let n = inner.len();
    let ghost count = chunk_count(n as nat);
    let mut result: Vec<Vec<u8>> = Vec::new();
    let mut start: usize = 0;
    let mut i: usize = 0;
    loop
        invariant
            n == inner@.len(),
            n <= u32::MAX,
            count == chunk_count(n as nat),
            i < count,
            start == i * CHANNEL_CHUNK_LENGTH,
            start <= n,
            result@.len() == i,
            forall|j: int| 0 <= j < i ==> #[trigger] result@[j]@ == spec_chunk(inner@, show_protocol, j as nat),
        decreases count - i,
    {
        proof {
            lemma_last_chunk(n as nat, i as nat);
        }
        let end: usize = if n - start > CHANNEL_CHUNK_LENGTH {
            start + CHANNEL_CHUNK_LENGTH
        } else {
            n
        };
        let is_last = end == n;
        let flags: u32 = (if show_protocol {
            CHANNEL_FLAG_SHOW_PROTOCOL
        } else {
            0u32
        }) | (if i == 0 {
            CHANNEL_FLAG_FIRST
        } else {
            0u32
        }) | (if is_last {
            CHANNEL_FLAG_LAST
        } else {
            0u32
        });
        let mut chunk: Vec<u8> = Vec::new();
        push_u32(&mut chunk, n as u32);
        push_u32(&mut chunk, flags);
        push_range(&mut chunk, inner, start, end);
        proof {
            assert(end == chunk_end(n as nat, i as nat));
            assert(is_last == (i + 1 == count));
            assert(chunk@ =~= spec_chunk(inner@, show_protocol, i as nat));
        }
        result.push(chunk);
        if is_last {
            proof {
                assert forall|j: int| 0 <= j < result@.len() implies #[trigger] result.deep_view()[j]
                    == spec_chunks(inner@, show_protocol)[j] by {
                    assert(result.deep_view()[j] =~= result@[j]@);
                }
                assert(result.deep_view() =~= spec_chunks(inner@, show_protocol));
            }
            return result;
        }
        i = i + 1;
        start = end;
    }
}

/// What a reassembler holds between chunks.
pub struct ReassemblyState {
    pub data: Seq<u8>,
    pub total_length: u32,
    pub started: bool,
}

pub open spec fn chunk_length_ok(chunk: Seq<u8>) -> bool {
    CHANNEL_HEADER_LENGTH <= chunk.len() <= MAX_ALLOWED_VCHAN_MSG_SIZE
}

pub open spec fn header_length(chunk: Seq<u8>) -> u32 {
    u32_at(chunk, 0)
}

pub open spec fn header_flags(chunk: Seq<u8>) -> u32 {
    u32_at(chunk, 4)
}

pub open spec fn has_flag(flags: u32, flag: u32) -> bool {
    flags & flag != 0
}

/// The state in which the chunk's payload is appended: reset by FIRST.
pub open spec fn state_before_append(st: ReassemblyState, chunk: Seq<u8>) -> ReassemblyState {
    if has_flag(header_flags(chunk), CHANNEL_FLAG_FIRST) {
        ReassemblyState { data: Seq::empty(), total_length: header_length(chunk), started: true }
    } else {
        st
    }
}

/// Whether feeding `chunk` in state `st` is a protocol error.
pub open spec fn reassembly_fails(st: ReassemblyState, chunk: Seq<u8>) -> bool {
    !chunk_length_ok(chunk) || {
        let base = state_before_append(st, chunk);
        ||| base.data.len() + (chunk.len() - 8) > base.total_length
        ||| (has_flag(header_flags(chunk), CHANNEL_FLAG_LAST) && !base.started)
    }
}

/// The state after a chunk that is not refused.
pub open spec fn reassembly_next(st: ReassemblyState, chunk: Seq<u8>) -> ReassemblyState {
    let base = state_before_append(st, chunk);
    if has_flag(header_flags(chunk), CHANNEL_FLAG_LAST) {
        ReassemblyState { data: Seq::empty(), total_length: base.total_length, started: false }
    } else {
        ReassemblyState {
            data: base.data + chunk.subrange(8, chunk.len() as int),
            total_length: base.total_length,
            started: base.started,
        }
    }
}

/// The logical PDU completed by a chunk that is not refused, if any.
pub open spec fn reassembly_output(st: ReassemblyState, chunk: Seq<u8>) -> Option<Seq<u8>> {
    let base = state_before_append(st, chunk);
    if has_flag(header_flags(chunk), CHANNEL_FLAG_LAST) {
        Some(base.data + chunk.subrange(8, chunk.len() as int))
    } else {
        None
    }
}

/// The state reached by feeding `chunks` in order, none of them refused.
pub open spec fn feed(st: ReassemblyState, chunks: Seq<Seq<u8>>) -> ReassemblyState
    decreases chunks.len(),
{
    if chunks.len() == 0 {
        st
    } else {
        reassembly_next(feed(st, chunks.drop_last()), chunks.last())
    }
}

proof fn lemma_flag_bits(s: u32, f: u32, l: u32)
    requires
        s == 0 || s == 0x10,
        f == 0 || f == 1,
        l == 0 || l == 2,
    ensures
        ((s | f | l) & 1 != 0) <==> f == 1,
        ((s | f | l) & 2 != 0) <==> l == 2,
        ((s | f | l) & 0x10 != 0) <==> s == 0x10,
{
    assert(((s | f | l) & 1 != 0) <==> f == 1) by (bit_vector)
        requires
            s == 0 || s == 0x10,
            f == 0 || f == 1,
            l == 0 || l == 2,
    ;
    assert(((s | f | l) & 2 != 0) <==> l == 2) by (bit_vector)
        requires
            s == 0 || s == 0x10,
            f == 0 || f == 1,
            l == 0 || l == 2,
    ;
    assert(((s | f | l) & 0x10 != 0) <==> s == 0x10) by (bit_vector)
        requires
            s == 0 || s == 0x10,
            f == 0 || f == 1,
            l == 0 || l == 2,
    ;
}

/// What the header and body of chunk `i` decode to.
proof fn lemma_chunk_fields(p: Seq<u8>, show: bool, i: nat)
    requires
        p.len() <= u32::MAX,
        i < chunk_count(p.len()),
    ensures
        ({
            let c = spec_chunk(p, show, i);
            &&& chunk_length_ok(c)
            &&& header_length(c) == p.len()
            &&& has_flag(header_flags(c), CHANNEL_FLAG_FIRST) <==> i == 0
            &&& has_flag(header_flags(c), CHANNEL_FLAG_LAST) <==> i + 1 == chunk_count(p.len())
            &&& has_flag(header_flags(c), CHANNEL_FLAG_SHOW_PROTOCOL) <==> show
            &&& c.subrange(8, c.len() as int) == p.subrange(
                i * CHANNEL_CHUNK_LENGTH,
                chunk_end(p.len(), i),
            )
        }),
{
    lemma_last_chunk(p.len(), i);
    lemma_auto_spec_u32_to_from_le_bytes();
    let c = spec_chunk(p, show, i);
    let flags = chunk_flags(p.len(), i, show);
    let body = p.subrange(i * CHANNEL_CHUNK_LENGTH, chunk_end(p.len(), i));
    assert(c.subrange(0, 4) =~= spec_u32_to_le_bytes(p.len() as u32));
    assert(c.subrange(4, 8) =~= spec_u32_to_le_bytes(flags));
    assert(c.subrange(8, c.len() as int) =~= body);
    lemma_flag_bits(
        if show {
            0x10u32
        } else {
            0u32
        },
        if i == 0 {
            1u32
        } else {
            0u32
        },
        if i + 1 == chunk_count(p.len()) {
            2u32
        } else {
            0u32
        },
    );
}

proof fn lemma_feed_prefix(p: Seq<u8>, show: bool, st: ReassemblyState, i: nat)
    requires
        p.len() <= u32::MAX,
        0 < i < chunk_count(p.len()),
    ensures
        feed(st, spec_chunks(p, show).take(i as int)) == (ReassemblyState {
            data: p.subrange(0, i * CHANNEL_CHUNK_LENGTH),
            total_length: p.len() as u32,
            started: true,
        }),
    decreases i,
{
    let chunks = spec_chunks(p, show);
    let prefix = chunks.take(i as int);
    assert(prefix.drop_last() =~= chunks.take(i - 1));
    assert(prefix.last() == spec_chunk(p, show, (i - 1) as nat));
    lemma_chunk_fields(p, show, (i - 1) as nat);
    lemma_last_chunk(p.len(), (i - 1) as nat);
    if i > 1 {
        lemma_feed_prefix(p, show, st, (i - 1) as nat);
    }
    let c = spec_chunk(p, show, (i - 1) as nat);
    let base = state_before_append(feed(st, chunks.take(i - 1)), c);
    assert(base.data =~= p.subrange(0, (i - 1) * CHANNEL_CHUNK_LENGTH));
    assert(chunk_end(p.len(), (i - 1) as nat) == i * CHANNEL_CHUNK_LENGTH);
    assert(base.data + c.subrange(8, c.len() as int) =~= p.subrange(0, i * CHANNEL_CHUNK_LENGTH));
}

/// Reassembling the chunks of any payload, from any state, yields the payload once,
/// at the last chunk and at no earlier one; every chunk carries the payload's length,
/// FIRST stands on the first chunk alone, LAST on the last alone, and SHOW_PROTOCOL on
/// each chunk exactly when it was asked for.
pub proof fn lemma_chunk_round_trip(p: Seq<u8>, show_protocol: bool, st: ReassemblyState)
    requires
        p.len() <= u32::MAX,
    ensures
        forall|i: int|
            #![trigger spec_chunks(p, show_protocol)[i]]
            0 <= i < spec_chunks(p, show_protocol).len() ==> {
                let chunks = spec_chunks(p, show_protocol);
                let before = feed(st, chunks.take(i));
                &&& !reassembly_fails(before, chunks[i])
                &&& reassembly_output(before, chunks[i]) == if i + 1 == chunks.len() {
                    Some(p)
                } else {
                    None
                }
                &&& header_length(chunks[i]) == p.len()
                &&& has_flag(header_flags(chunks[i]), CHANNEL_FLAG_FIRST) <==> i == 0
                &&& has_flag(header_flags(chunks[i]), CHANNEL_FLAG_LAST) <==> i + 1 == chunks.len()
                &&& has_flag(header_flags(chunks[i]), CHANNEL_FLAG_SHOW_PROTOCOL) <==> show_protocol
            },
{
    let chunks = spec_chunks(p, show_protocol);
    assert forall|i: int| 0 <= i < chunks.len() implies {
        let before = feed(st, chunks.take(i));
        &&& !reassembly_fails(before, #[trigger] chunks[i])
        &&& reassembly_output(before, chunks[i]) == if i + 1 == chunks.len() {
            Some(p)
        } else {
            None
        }
        &&& header_length(chunks[i]) == p.len()
        &&& has_flag(header_flags(chunks[i]), CHANNEL_FLAG_FIRST) <==> i == 0
        &&& has_flag(header_flags(chunks[i]), CHANNEL_FLAG_LAST) <==> i + 1 == chunks.len()
        &&& has_flag(header_flags(chunks[i]), CHANNEL_FLAG_SHOW_PROTOCOL) <==> show_protocol
    } by {
        let c = spec_chunk(p, show_protocol, i as nat);
        lemma_chunk_fields(p, show_protocol, i as nat);
        lemma_last_chunk(p.len(), i as nat);
        let before = feed(st, chunks.take(i));
        if i > 0 {
            lemma_feed_prefix(p, show_protocol, st, i as nat);
        }
        let base = state_before_append(before, c);
        assert(base.data =~= p.subrange(0, i * CHANNEL_CHUNK_LENGTH));
        assert(base.started);
        if i + 1 == chunks.len() {
            assert(base.data + c.subrange(8, c.len() as int) =~= p);
        }
    }
}

/// Reassembles the chunks of one virtual channel.
pub struct Reassembler {
    data: Vec<u8>,
    total_length: u32,
    started: bool,
}

impl View for Reassembler {
    type V = ReassemblyState;

    closed spec fn view(&self) -> ReassemblyState {
        ReassemblyState { data: self.data@, total_length: self.total_length, started: self.started }
    }
}

impl Reassembler {
    pub fn new() -> (r: Reassembler)
        ensures
            r@ == (ReassemblyState { data: Seq::empty(), total_length: 0, started: false }),
    {
        Reassembler { data: Vec::new(), total_length: 0, started: false }
    }

    /// Feeds one inbound chunk; returns the logical PDU that it completes, if any.
    /// A refused chunk leaves the state as it was.
    pub fn reassemble(&mut self, chunk: &Vec<u8>) -> (r: RdpResult<Option<Vec<u8>>>)
        ensures
            reassembly_fails(old(self)@, chunk@) ==> r == Err::<Option<Vec<u8>>, ErrorKind>(
                ErrorKind::Protocol,
            ) && final(self)@ == old(self)@,
            !reassembly_fails(old(self)@, chunk@) ==> {
                &&& r is Ok
                &&& final(self)@ == reassembly_next(old(self)@, chunk@)
                &&& match r {
                    Ok(Some(v)) => reassembly_output(old(self)@, chunk@) == Some(v@),
                    Ok(None) => reassembly_output(old(self)@, chunk@) is None,
                    Err(_) => false,
                }
            },
    {
        if chunk.len() < CHANNEL_HEADER_LENGTH || chunk.len() > MAX_ALLOWED_VCHAN_MSG_SIZE {
            return Err(ErrorKind::Protocol);
        }
        let length = read_u32(chunk, 0).unwrap();
        let flags = read_u32(chunk, 4).unwrap();
        let first = flags & CHANNEL_FLAG_FIRST != 0;
        let last = flags & CHANNEL_FLAG_LAST != 0;
        let payload_len = chunk.len() - CHANNEL_HEADER_LENGTH;
        let (held, total, started) = if first {
            (0usize, length, true)
        } else {
            (self.data.len(), self.total_length, self.started)
        };
        if payload_len > total as usize || held > total as usize - payload_len {
            return Err(ErrorKind::Protocol);
        }
        if last && !started {
            return Err(ErrorKind::Protocol);
        }
        if first {
            self.data = Vec::new();
            self.total_length = length;
            self.started = true;
        }
        push_range(&mut self.data, chunk, CHANNEL_HEADER_LENGTH, chunk.len());
        if last {
            let out = copy_range(&self.data, 0, self.data.len());
            proof {
                assert(self.data@.subrange(0, self.data@.len() as int) =~= self.data@);
            }
            self.data = Vec::new();
            self.started = false;
            Ok(Some(out))
        } else {
            Ok(None)
        }
    }
}

} // verus!
