//! Little-endian and big-endian integer fields, and the variable-length
//! integer used as a length prefix.
use vstd::bytes::*;
use vstd::prelude::*;
use vstd::slice::slice_subrange;

verus! {

/// The malformed-input failures of decoding and framing.
#[derive(Debug, Clone, Copy, PartialEq, Eq, Structural)]
pub enum WireError {
    /// Fewer than 26 bytes where a network address was expected.
    MalformedAddress,
    /// A fixed-size field, or the bytes after a length marker, run past the
    /// end of the buffer.
    TruncatedPayload,
    /// A length prefix claims more bytes than remain.
    InvalidLengthPrefix,
    /// Fewer than 24 bytes where a message header was expected.
    ShortRead,
    /// The header's checksum differs from the payload's.
    ChecksumMismatch,
    /// The header's length differs from the payload's.
    LengthMismatch,
    /// A command name longer than 12 bytes.
    CommandTooLong,
}

/// A 16-bit value, most significant byte first.
pub open spec fn be_u16(x: u16) -> Seq<u8> {
    seq![(x >> 8u16) as u8, (x & 0xffu16) as u8]
}

/// The value of two bytes, most significant first.
pub open spec fn from_be_u16(s: Seq<u8>) -> u16 {
    ((s[0] as u16) << 8u16) | (s[1] as u16)
}

pub open spec fn le_i32(x: i32) -> Seq<u8> {
    spec_u32_to_le_bytes(#[verifier::truncate] (x as u32))
}

pub open spec fn from_le_i32(s: Seq<u8>) -> i32 {
    #[verifier::truncate] (spec_u32_from_le_bytes(s) as i32)
}

pub open spec fn le_i64(x: i64) -> Seq<u8> {
    spec_u64_to_le_bytes(#[verifier::truncate] (x as u64))
}

pub open spec fn from_le_i64(s: Seq<u8>) -> i64 {
    #[verifier::truncate] (spec_u64_from_le_bytes(s) as i64)
}

/// The variable-length encoding of `v`: one byte below 0xfd, else a marker
/// byte followed by 2, 4 or 8 little-endian bytes.
pub open spec fn varint_bytes(v: u64) -> Seq<u8> {
    if v < 0xfd {
        seq![v as u8]
    } else if v <= 0xffff {
        seq![0xfdu8] + spec_u16_to_le_bytes(v as u16)
    } else if v <= 0xffff_ffff {
        seq![0xfeu8] + spec_u32_to_le_bytes(v as u32)
    } else {
        seq![0xffu8] + spec_u64_to_le_bytes(v)
    }
}

/// Reading a variable-length integer at the start of `b`: the value and the
/// number of bytes it took. A marker whose bytes are absent is a truncation.
/// A value written in a longer form than it needs is read like any other.
pub open spec fn varint_parse(b: Seq<u8>) -> Result<(u64, usize), WireError> {
    if b.len() < 1 {
        Err(WireError::TruncatedPayload)
    } else if b[0] < 0xfd {
        Ok((b[0] as u64, 1usize))
    } else if b[0] == 0xfd {
        if b.len() < 3 {
            Err(WireError::TruncatedPayload)
        } else {
            Ok((spec_u16_from_le_bytes(b.subrange(1, 3)) as u64, 3usize))
        }
    } else if b[0] == 0xfe {
        if b.len() < 5 {
            Err(WireError::TruncatedPayload)
        } else {
            Ok((spec_u32_from_le_bytes(b.subrange(1, 5)) as u64, 5usize))
        }
    } else {
        if b.len() < 9 {
            Err(WireError::TruncatedPayload)
        } else {
            Ok((spec_u64_from_le_bytes(b.subrange(1, 9)), 9usize))
        }
    }
}

pub proof fn lemma_be_u16_round_trip(x: u16)
    ensures
        be_u16(x).len() == 2,
        from_be_u16(be_u16(x)) == x,
{
    assert((((x >> 8u16) as u8) as u16) << 8u16 | (((x & 0xffu16) as u8) as u16) == x)
        by (bit_vector);
}

pub proof fn lemma_i32_round_trip(x: i32)
    ensures
        le_i32(x).len() == 4,
        from_le_i32(le_i32(x)) == x,
{
    lemma_auto_spec_u32_to_from_le_bytes();
    let y = #[verifier::truncate] (x as u32);
    assert(spec_u32_to_le_bytes(y).len() == 4);
    assert(spec_u32_from_le_bytes(spec_u32_to_le_bytes(y)) == y);
    assert((x as u32) as i32 == x) by (bit_vector);
}

pub proof fn lemma_i64_round_trip(x: i64)
    ensures
        le_i64(x).len() == 8,
        from_le_i64(le_i64(x)) == x,
{
    lemma_auto_spec_u64_to_from_le_bytes();
    let y = #[verifier::truncate] (x as u64);
    assert(spec_u64_from_le_bytes(spec_u64_to_le_bytes(y)) == y);
    assert((x as u64) as i64 == x) by (bit_vector);
}

/// Every variable-length integer reads back as itself, whatever follows it.
pub proof fn lemma_varint_round_trip(v: u64, rest: Seq<u8>)
    ensures
        varint_parse(varint_bytes(v) + rest) == Ok::<(u64, usize), WireError>(
            (v, varint_bytes(v).len() as usize),
        ),
        1 <= varint_bytes(v).len() <= 9,
{
    lemma_auto_spec_u16_to_from_le_bytes();
    lemma_auto_spec_u32_to_from_le_bytes();
    lemma_auto_spec_u64_to_from_le_bytes();
    let b = varint_bytes(v) + rest;
    if v < 0xfd {
    } else if v <= 0xffff {
        assert(b.subrange(1, 3) =~= spec_u16_to_le_bytes(v as u16));
        assert(b[0] == 0xfdu8);
    } else if v <= 0xffff_ffff {
        assert(b.subrange(1, 5) =~= spec_u32_to_le_bytes(v as u32));
        assert(b[0] == 0xfeu8);
    } else {
        assert(b.subrange(1, 9) =~= spec_u64_to_le_bytes(v));
        assert(b[0] == 0xffu8);
    }
}

/// Appends `x`, most significant byte first.
pub fn push_u16_be(out: &mut Vec<u8>, x: u16)
    ensures
        final(out)@ == old(out)@ + be_u16(x),
{
    out.push((x >> 8u16) as u8);
    out.push((x & 0xffu16) as u8);
    assert(final(out)@ =~= old(out)@ + be_u16(x));
}

pub fn push_u16_le(out: &mut Vec<u8>, x: u16)
    ensures
        final(out)@ == old(out)@ + spec_u16_to_le_bytes(x),
{
    let mut b = u16_to_le_bytes(x);
    out.append(&mut b);
}

pub fn push_u32_le(out: &mut Vec<u8>, x: u32)
    ensures
        final(out)@ == old(out)@ + spec_u32_to_le_bytes(x),
{
    let mut b = u32_to_le_bytes(x);
    out.append(&mut b);
}

pub fn push_u64_le(out: &mut Vec<u8>, x: u64)
    ensures
        final(out)@ == old(out)@ + spec_u64_to_le_bytes(x),
{
    let mut b = u64_to_le_bytes(x);
    out.append(&mut b);
}

pub fn push_i32_le(out: &mut Vec<u8>, x: i32)
    ensures
        final(out)@ == old(out)@ + le_i32(x),
{
    push_u32_le(out, x as u32);
}

pub fn push_i64_le(out: &mut Vec<u8>, x: i64)
    ensures
        final(out)@ == old(out)@ + le_i64(x),
{
    push_u64_le(out, x as u64);
}

/// The two bytes at `at`, most significant first.
pub fn read_u16_be(b: &[u8], at: usize) -> (r: u16)
    requires
        at + 2 <= b@.len(),
    ensures
        r == from_be_u16(b@.subrange(at as int, at + 2)),
{
    ((b[at] as u16) << 8u16) | (b[at + 1] as u16)
}

pub fn read_u16_le(b: &[u8], at: usize) -> (r: u16)
    requires
        at + 2 <= b@.len(),
    ensures
        r == spec_u16_from_le_bytes(b@.subrange(at as int, at + 2)),
{
    proof {
        assert(b@.len() == b.len());
    }
    u16_from_le_bytes(slice_subrange(b, at, at + 2))
}

pub fn read_u32_le(b: &[u8], at: usize) -> (r: u32)
    requires
        at + 4 <= b@.len(),
    ensures
        r == spec_u32_from_le_bytes(b@.subrange(at as int, at + 4)),
{
    proof {
        assert(b@.len() == b.len());
    }
    u32_from_le_bytes(slice_subrange(b, at, at + 4))
}

pub fn read_u64_le(b: &[u8], at: usize) -> (r: u64)
    requires
        at + 8 <= b@.len(),
    ensures
        r == spec_u64_from_le_bytes(b@.subrange(at as int, at + 8)),
{
    proof {
        assert(b@.len() == b.len());
    }
    u64_from_le_bytes(slice_subrange(b, at, at + 8))
}

pub fn read_i32_le(b: &[u8], at: usize) -> (r: i32)
    requires
        at + 4 <= b@.len(),
    ensures
        r == from_le_i32(b@.subrange(at as int, at + 4)),
{
    read_u32_le(b, at) as i32
}

pub fn read_i64_le(b: &[u8], at: usize) -> (r: i64)
    requires
        at + 8 <= b@.len(),
    ensures
        r == from_le_i64(b@.subrange(at as int, at + 8)),
{
    read_u64_le(b, at) as i64
}

/// Appends the variable-length encoding of `v`.
pub fn push_varint(out: &mut Vec<u8>, v: u64)
    ensures
        final(out)@ == old(out)@ + varint_bytes(v),
{
    if v < 0xfd {
        out.push(v as u8);
        assert(final(out)@ =~= old(out)@ + varint_bytes(v));
    } else if v <= 0xffff {
        out.push(0xfdu8);
        push_u16_le(out, v as u16);
        assert(final(out)@ =~= old(out)@ + varint_bytes(v));
    } else if v <= 0xffff_ffff {
        out.push(0xfeu8);
        push_u32_le(out, v as u32);
        assert(final(out)@ =~= old(out)@ + varint_bytes(v));
    } else {
        out.push(0xffu8);
        push_u64_le(out, v);
        assert(final(out)@ =~= old(out)@ + varint_bytes(v));
    }
}

/// The variable-length encoding of `v` on its own.
pub fn encode_varint(v: u64) -> (r: Vec<u8>)
    ensures
        r@ == varint_bytes(v),
{
    let mut out: Vec<u8> = Vec::new();
    push_varint(&mut out, v);
    assert(out@ =~= varint_bytes(v));
    out
}

/// Reads a variable-length integer at the start of `b`.
pub fn decode_varint(b: &[u8]) -> (r: Result<(u64, usize), WireError>)
    ensures
        r == varint_parse(b@),
{
    let n = b.len();
    if n < 1 {
        Err(WireError::TruncatedPayload)
    } else if b[0] < 0xfd {
        Ok((b[0] as u64, 1usize))
    } else if b[0] == 0xfd {
        if n < 3 {
            Err(WireError::TruncatedPayload)
        } else {
            Ok((read_u16_le(b, 1) as u64, 3usize))
        }
    } else if b[0] == 0xfe {
        if n < 5 {
            Err(WireError::TruncatedPayload)
        } else {
            Ok((read_u32_le(b, 1) as u64, 5usize))
        }
    } else {
        if n < 9 {
            Err(WireError::TruncatedPayload)
        } else {
            Ok((read_u64_le(b, 1), 9usize))
        }
    }
}

/// Appends the bytes of `b` as they are.
pub fn push_bytes(out: &mut Vec<u8>, b: &[u8])
    ensures
        final(out)@ == old(out)@ + b@,
{
    let mut i: usize = 0;
    while i < b.len()
        invariant
            0 <= i <= b@.len(),
            out@ == old(out)@ + b@.subrange(0, i as int),
        decreases b@.len() - i,
    {
        out.push(b[i]);
        i = i + 1;
        assert(b@.subrange(0, i as int) =~= b@.subrange(0, i - 1).push(b@[i - 1]));
    }
    assert(b@.subrange(0, b@.len() as int) =~= b@);
}

} // verus!
