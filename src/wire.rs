//! Little-endian integers and UTF-16LE strings on the wire.
use vstd::bytes::*;
use vstd::slice::slice_subrange;
use vstd::prelude::*;

verus! {

/// The bytes of a sequence of UTF-16 code units, little-endian.
pub open spec fn utf16le(units: Seq<u16>) -> Seq<u8>
    decreases units.len(),
{
    if units.len() == 0 {
        Seq::empty()
    } else {
        utf16le(units.drop_last()) + spec_u16_to_le_bytes(units.last())
    }
}

pub fn push_u8(w: &mut Vec<u8>, v: u8)
    ensures
        final(w)@ == old(w)@.push(v),
{
    w.push(v);
}

pub fn push_u16(w: &mut Vec<u8>, v: u16)
    ensures
        final(w)@ == old(w)@ + spec_u16_to_le_bytes(v),
{
    let mut b = u16_to_le_bytes(v);
    w.append(&mut b);
}

pub fn push_u32(w: &mut Vec<u8>, v: u32)
    ensures
        final(w)@ == old(w)@ + spec_u32_to_le_bytes(v),
{
    let mut b = u32_to_le_bytes(v);
    w.append(&mut b);
}

pub fn push_u64(w: &mut Vec<u8>, v: u64)
    ensures
        final(w)@ == old(w)@ + spec_u64_to_le_bytes(v),
{
    let mut b = u64_to_le_bytes(v);
    w.append(&mut b);
}

/// Appends `src[start..end]` to `w`.
pub fn push_range(w: &mut Vec<u8>, src: &Vec<u8>, start: usize, end: usize)
    requires
        start <= end <= src@.len(),
    ensures
        final(w)@ == old(w)@ + src@.subrange(start as int, end as int),
{
    let ghost w0 = w@;
    let mut i: usize = start;
    while i < end
        invariant
            start <= i <= end <= src@.len(),
            w@ == w0 + src@.subrange(start as int, i as int),
        decreases end - i,
    {
        w.push(src[i]);
        proof {
            assert(src@.subrange(start as int, i + 1) =~= src@.subrange(start as int, i as int).push(
                src@[i as int],
            ));
        }
        i = i + 1;
    }
}

/// Appends all of `src` to `w`.
pub fn push_all(w: &mut Vec<u8>, src: &Vec<u8>)
    ensures
        final(w)@ == old(w)@ + src@,
{
    push_range(w, src, 0, src.len());
    proof {
        assert(src@.subrange(0, src@.len() as int) =~= src@);
    }
}

/// Appends `n` zero bytes.
pub fn push_zeros(w: &mut Vec<u8>, n: usize)
    ensures
        final(w)@ == old(w)@ + Seq::new(n as nat, |_i: int| 0u8),
{
    let ghost w0 = w@;
    let mut i: usize = 0;
    while i < n
        invariant
            i <= n,
            w@ == w0 + Seq::new(i as nat, |_i: int| 0u8),
        decreases n - i,
    {
        w.push(0u8);
        i = i + 1;
        proof {
            assert(w@ =~= w0 + Seq::new(i as nat, |_i: int| 0u8));
        }
    }
}

/// Appends the UTF-16LE bytes of `units`.
pub fn push_utf16(w: &mut Vec<u8>, units: &Vec<u16>)
    ensures
        final(w)@ == old(w)@ + utf16le(units@),
{
    let ghost w0 = w@;
    let mut i: usize = 0;
    while i < units.len()
        invariant
            i <= units@.len(),
            w@ == w0 + utf16le(units@.subrange(0, i as int)),
        decreases units@.len() - i,
    {
        push_u16(w, units[i]);
        proof {
            let s = units@.subrange(0, i + 1);
            assert(s.drop_last() =~= units@.subrange(0, i as int));
            assert(w@ =~= w0 + utf16le(s));
        }
        i = i + 1;
    }
    proof {
        assert(units@.subrange(0, units@.len() as int) =~= units@);
    }
}

pub open spec fn u16_at(b: Seq<u8>, pos: int) -> u16 {
    spec_u16_from_le_bytes(b.subrange(pos, pos + 2))
}

pub open spec fn u32_at(b: Seq<u8>, pos: int) -> u32 {
    spec_u32_from_le_bytes(b.subrange(pos, pos + 4))
}

pub open spec fn u64_at(b: Seq<u8>, pos: int) -> u64 {
    spec_u64_from_le_bytes(b.subrange(pos, pos + 8))
}

/// Reads a little-endian `u16` at `pos`, or `None` when fewer than two bytes remain.
pub fn read_u16(b: &Vec<u8>, pos: usize) -> (r: Option<u16>)
    ensures
        pos + 2 <= b@.len() ==> r == Some(u16_at(b@, pos as int)),
        pos + 2 > b@.len() ==> r is None,
{
    if pos > b.len() || b.len() - pos < 2 {
        return None;
    }
    let s = slice_subrange(b.as_slice(), pos, pos + 2);
    Some(u16_from_le_bytes(s))
}

/// Reads a little-endian `u32` at `pos`, or `None` when fewer than four bytes remain.
pub fn read_u32(b: &Vec<u8>, pos: usize) -> (r: Option<u32>)
    ensures
        pos + 4 <= b@.len() ==> r == Some(u32_at(b@, pos as int)),
        pos + 4 > b@.len() ==> r is None,
{
    if pos > b.len() || b.len() - pos < 4 {
        return None;
    }
    let s = slice_subrange(b.as_slice(), pos, pos + 4);
    Some(u32_from_le_bytes(s))
}

/// Reads a little-endian `u64` at `pos`, or `None` when fewer than eight bytes remain.
pub fn read_u64(b: &Vec<u8>, pos: usize) -> (r: Option<u64>)
    ensures
        pos + 8 <= b@.len() ==> r == Some(u64_at(b@, pos as int)),
        pos + 8 > b@.len() ==> r is None,
{
    if pos > b.len() || b.len() - pos < 8 {
        return None;
    }
    let s = slice_subrange(b.as_slice(), pos, pos + 8);
    Some(u64_from_le_bytes(s))
}

/// Copies `src[start..end]` into a new vector.
pub fn copy_range(src: &Vec<u8>, start: usize, end: usize) -> (r: Vec<u8>)
    requires
        start <= end <= src@.len(),
    ensures
        r@ == src@.subrange(start as int, end as int),
{
    let mut r: Vec<u8> = Vec::new();
    push_range(&mut r, src, start, end);
    proof {
        assert(Seq::<u8>::empty() + src@.subrange(start as int, end as int) =~= src@.subrange(
            start as int,
            end as int,
        ));
    }
    r
}

/// The file name field at `pos`: code units up to the first NUL, and not past `end`.
pub open spec fn bounded_units(b: Seq<u8>, pos: int, end: int) -> Seq<u16>
    decreases end - pos,
{
    if pos + 2 > end || u16_at(b, pos) == 0 {
        Seq::empty()
    } else {
        seq![u16_at(b, pos)] + bounded_units(b, pos + 2, end)
    }
}

/// A file name field of `n` bytes holds at most `n / 2` code units.
pub proof fn lemma_bounded_units_len(b: Seq<u8>, pos: int, end: int)
    ensures
        2 * bounded_units(b, pos, end).len() <= if end >= pos {
            end - pos
        } else {
            0
        },
    decreases end - pos,
{
    if !(pos + 2 > end || u16_at(b, pos) == 0) {
        lemma_bounded_units_len(b, pos + 2, end);
    }
}

/// Reads the code units from `pos` up to the first NUL, and not past `end`.
pub fn read_bounded_units(b: &Vec<u8>, pos: usize, end: usize) -> (r: Vec<u16>)
    requires
        pos <= end <= b@.len(),
    ensures
        r@ == bounded_units(b@, pos as int, end as int),
{
    let mut acc: Vec<u16> = Vec::new();
    let mut p: usize = pos;
    loop
        invariant
            pos <= p,
            end <= b@.len(),
            bounded_units(b@, pos as int, end as int) == acc@ + bounded_units(
                b@,
                p as int,
                end as int,
            ),
        decreases end - p,
    {
        if p > end || end - p < 2 {
            proof {
                assert(acc@ + Seq::<u16>::empty() =~= acc@);
            }
            return acc;
        }
        let unit = read_u16(b, p).unwrap();
        if unit == 0 {
            proof {
                assert(acc@ + Seq::<u16>::empty() =~= acc@);
            }
            return acc;
        }
        proof {
            assert(acc@ + (seq![unit] + bounded_units(b@, p + 2, end as int)) =~= acc@.push(unit)
                + bounded_units(b@, p + 2, end as int));
        }
        acc.push(unit);
        p = p + 2;
    }
}

} // verus!
