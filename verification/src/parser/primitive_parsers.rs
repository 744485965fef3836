//! Big-endian numbers, read from bytes and written to them.

use vstd::prelude::*;

verus! {

/// The unsigned 16-bit number that the two bytes of `s` from `at` on spell, most
/// significant byte first.
pub open spec fn be_u16(s: Seq<u8>, at: int) -> u16 {
    (s[at] as int * 0x100 + s[at + 1] as int) as u16
}

/// The unsigned 32-bit number that the four bytes of `s` from `at` on spell.
pub open spec fn be_u32(s: Seq<u8>, at: int) -> u32 {
    (be_u16(s, at) as int * 0x1_0000 + be_u16(s, at + 2) as int) as u32
}

/// The unsigned 64-bit number that the eight bytes of `s` from `at` on spell.
pub open spec fn be_u64(s: Seq<u8>, at: int) -> u64 {
    (be_u32(s, at) as int * 0x1_0000_0000 + be_u32(s, at + 4) as int) as u64
}

/// The signed reading of a byte in two's complement.
pub open spec fn as_i8(v: u8) -> i8 {
    if v < 0x80 {
        v as i8
    } else {
        (v as int - 0x100) as i8
    }
}

/// The signed reading of 16 bits in two's complement.
pub open spec fn as_i16(v: u16) -> i16 {
    if v < 0x8000 {
        v as i16
    } else {
        (v as int - 0x1_0000) as i16
    }
}

/// The signed reading of 32 bits in two's complement.
pub open spec fn as_i32(v: u32) -> i32 {
    if v < 0x8000_0000 {
        v as i32
    } else {
        (v as int - 0x1_0000_0000) as i32
    }
}

/// The signed reading of 64 bits in two's complement.
pub open spec fn as_i64(v: u64) -> i64 {
    if v < 0x8000_0000_0000_0000 {
        v as i64
    } else {
        (v as int - 0x1_0000_0000_0000_0000) as i64
    }
}

/// The bits of a signed byte, read as an unsigned one.
pub open spec fn bits_i8(v: i8) -> u8 {
    if v >= 0 {
        v as u8
    } else {
        (v as int + 0x100) as u8
    }
}

/// The bits of a signed 16-bit number, read as an unsigned one.
pub open spec fn bits_i16(v: i16) -> u16 {
    if v >= 0 {
        v as u16
    } else {
        (v as int + 0x1_0000) as u16
    }
}

/// The bits of a signed 32-bit number, read as an unsigned one.
pub open spec fn bits_i32(v: i32) -> u32 {
    if v >= 0 {
        v as u32
    } else {
        (v as int + 0x1_0000_0000) as u32
    }
}

/// The bits of a signed 64-bit number, read as an unsigned one.
pub open spec fn bits_i64(v: i64) -> u64 {
    if v >= 0 {
        v as u64
    } else {
        (v as int + 0x1_0000_0000_0000_0000) as u64
    }
}

/// The two bytes that spell `v`, most significant first.
pub open spec fn u16_be_bytes(v: u16) -> Seq<u8> {
    seq![(v / 0x100) as u8, (v % 0x100) as u8]
}

/// The four bytes that spell `v`, most significant first.
pub open spec fn u32_be_bytes(v: u32) -> Seq<u8> {
    u16_be_bytes((v / 0x1_0000) as u16) + u16_be_bytes((v % 0x1_0000) as u16)
}

/// The eight bytes that spell `v`, most significant first.
pub open spec fn u64_be_bytes(v: u64) -> Seq<u8> {
    u32_be_bytes((v / 0x1_0000_0000) as u32) + u32_be_bytes((v % 0x1_0000_0000) as u32)
}

/// Reading the bytes that spell a number gives the number back.
pub proof fn lemma_read_of_written(v16: u16, v32: u32, v64: u64)
    ensures
        u16_be_bytes(v16).len() == 2,
        u32_be_bytes(v32).len() == 4,
        u64_be_bytes(v64).len() == 8,
        be_u16(u16_be_bytes(v16), 0) == v16,
        be_u32(u32_be_bytes(v32), 0) == v32,
        be_u64(u64_be_bytes(v64), 0) == v64,
{
    lemma_read_u32_of_written(v32);
    let hi = (v64 / 0x1_0000_0000) as u32;
    let lo = (v64 % 0x1_0000_0000) as u32;
    lemma_read_u32_of_written(hi);
    lemma_read_u32_of_written(lo);
    let s = u64_be_bytes(v64);
    lemma_be_u32_of_parts(u32_be_bytes(hi), u32_be_bytes(lo));
}

proof fn lemma_read_u32_of_written(v: u32)
    ensures
        u32_be_bytes(v).len() == 4,
        be_u32(u32_be_bytes(v), 0) == v,
{
}

/// Where two runs of four bytes are joined, each half reads as it did alone.
proof fn lemma_be_u32_of_parts(a: Seq<u8>, b: Seq<u8>)
    requires
        a.len() == 4,
        b.len() == 4,
    ensures
        be_u32(a + b, 0) == be_u32(a, 0),
        be_u32(a + b, 4) == be_u32(b, 0),
{
}

/// Writing the number that some bytes spell gives the bytes back.
pub proof fn lemma_written_of_read(s: Seq<u8>, at: int)
    requires
        0 <= at,
    ensures
        at + 2 <= s.len() ==> u16_be_bytes(be_u16(s, at)) == s.subrange(at, at + 2),
        at + 4 <= s.len() ==> u32_be_bytes(be_u32(s, at)) == s.subrange(at, at + 4),
        at + 8 <= s.len() ==> u64_be_bytes(be_u64(s, at)) == s.subrange(at, at + 8),
{
    if at + 2 <= s.len() {
        lemma_written_u16_of_read(s, at);
    }
    if at + 4 <= s.len() {
        lemma_written_u32_of_read(s, at);
    }
    if at + 8 <= s.len() {
        lemma_written_u32_of_read(s, at);
        lemma_written_u32_of_read(s, at + 4);
        let hi = be_u32(s, at);
        let lo = be_u32(s, at + 4);
        let v = be_u64(s, at);
        assert(v == hi as int * 0x1_0000_0000 + lo as int);
        assert((v / 0x1_0000_0000) as u32 == hi);
        assert((v % 0x1_0000_0000) as u32 == lo);
        assert(s.subrange(at, at + 4) + s.subrange(at + 4, at + 8) =~= s.subrange(at, at + 8));
    }
}

proof fn lemma_written_u16_of_read(s: Seq<u8>, at: int)
    requires
        0 <= at,
        at + 2 <= s.len(),
    ensures
        u16_be_bytes(be_u16(s, at)) == s.subrange(at, at + 2),
{
    let hi = s[at];
    let lo = s[at + 1];
    let v = be_u16(s, at);
    assert(v == hi as int * 0x100 + lo as int);
    assert((v / 0x100) as u8 == hi);
    assert((v % 0x100) as u8 == lo);
    assert(u16_be_bytes(v) =~= s.subrange(at, at + 2));
}

proof fn lemma_written_u32_of_read(s: Seq<u8>, at: int)
    requires
        0 <= at,
        at + 4 <= s.len(),
    ensures
        u32_be_bytes(be_u32(s, at)) == s.subrange(at, at + 4),
{
    lemma_written_u16_of_read(s, at);
    lemma_written_u16_of_read(s, at + 2);
    let hi = be_u16(s, at);
    let lo = be_u16(s, at + 2);
    let v = be_u32(s, at);
    assert(v == hi as int * 0x1_0000 + lo as int);
    assert((v / 0x1_0000) as u16 == hi);
    assert((v % 0x1_0000) as u16 == lo);
    assert(s.subrange(at, at + 2) + s.subrange(at + 2, at + 4) =~= s.subrange(at, at + 4));
}

/// The signed and the unsigned reading of the same bits undo each other.
pub proof fn lemma_signed_bits(a: u8, b: u16, c: u32, d: u64)
    ensures
        bits_i8(as_i8(a)) == a,
        bits_i16(as_i16(b)) == b,
        bits_i32(as_i32(c)) == c,
        bits_i64(as_i64(d)) == d,
{
}

/// The unsigned and the signed reading of the same bits undo each other.
pub proof fn lemma_bits_signed(a: i8, b: i16, c: i32, d: i64)
    ensures
        as_i8(bits_i8(a)) == a,
        as_i16(bits_i16(b)) == b,
        as_i32(bits_i32(c)) == c,
        as_i64(bits_i64(d)) == d,
{
}

pub fn read_u8(data: &[u8], at: usize) -> (v: u8)
    requires
        at < data.len(),
    ensures
        v == data@[at as int],
{
    data[at]
}

pub fn read_u16(data: &[u8], at: usize) -> (v: u16)
    requires
        at + 2 <= data.len(),
    ensures
        v == be_u16(data@, at as int),
{
    (data[at] as u16) * 0x100 + (data[at + 1] as u16)
}

pub fn read_u32(data: &[u8], at: usize) -> (v: u32)
    requires
        at + 4 <= data.len(),
    ensures
        v == be_u32(data@, at as int),
{
    (read_u16(data, at) as u32) * 0x1_0000 + (read_u16(data, at + 2) as u32)
}

pub fn read_u64(data: &[u8], at: usize) -> (v: u64)
    requires
        at + 8 <= data.len(),
    ensures
        v == be_u64(data@, at as int),
{
    (read_u32(data, at) as u64) * 0x1_0000_0000 + (read_u32(data, at + 4) as u64)
}

pub fn to_i8(v: u8) -> (r: i8)
    ensures
        r == as_i8(v),
{
    if v < 0x80 {
        v as i8
    } else {
        ((v - 0x80) as i8) + i8::MIN
    }
}

pub fn to_i16(v: u16) -> (r: i16)
    ensures
        r == as_i16(v),
{
    if v < 0x8000 {
        v as i16
    } else {
        ((v - 0x8000) as i16) + i16::MIN
    }
}

pub fn to_i32(v: u32) -> (r: i32)
    ensures
        r == as_i32(v),
{
    if v < 0x8000_0000 {
        v as i32
    } else {
        ((v - 0x8000_0000) as i32) + i32::MIN
    }
}

pub fn to_i64(v: u64) -> (r: i64)
    ensures
        r == as_i64(v),
{
    if v < 0x8000_0000_0000_0000 {
        v as i64
    } else {
        ((v - 0x8000_0000_0000_0000) as i64) + i64::MIN
    }
}

pub fn from_i8(v: i8) -> (r: u8)
    ensures
        r == bits_i8(v),
{
    if v >= 0 {
        v as u8
    } else {
        ((v - i8::MIN) as u8) + 0x80
    }
}

pub fn from_i16(v: i16) -> (r: u16)
    ensures
        r == bits_i16(v),
{
    if v >= 0 {
        v as u16
    } else {
        ((v - i16::MIN) as u16) + 0x8000
    }
}

pub fn from_i32(v: i32) -> (r: u32)
    ensures
        r == bits_i32(v),
{
    if v >= 0 {
        v as u32
    } else {
        ((v - i32::MIN) as u32) + 0x8000_0000
    }
}

pub fn from_i64(v: i64) -> (r: u64)
    ensures
        r == bits_i64(v),
{
    if v >= 0 {
        v as u64
    } else {
        ((v - i64::MIN) as u64) + 0x8000_0000_0000_0000
    }
}

pub fn write_u16(out: &mut Vec<u8>, v: u16)
    ensures
        final(out)@ == old(out)@ + u16_be_bytes(v),
{
    out.push((v / 0x100) as u8);
    out.push((v % 0x100) as u8);
    assert(out@ =~= old(out)@ + u16_be_bytes(v));
}

pub fn write_u32(out: &mut Vec<u8>, v: u32)
    ensures
        final(out)@ == old(out)@ + u32_be_bytes(v),
{
    write_u16(out, (v / 0x1_0000) as u16);
    write_u16(out, (v % 0x1_0000) as u16);
    assert(out@ =~= old(out)@ + u32_be_bytes(v));
}

pub fn write_u64(out: &mut Vec<u8>, v: u64)
    ensures
        final(out)@ == old(out)@ + u64_be_bytes(v),
{
    write_u32(out, (v / 0x1_0000_0000) as u32);
    write_u32(out, (v % 0x1_0000_0000) as u32);
    assert(out@ =~= old(out)@ + u64_be_bytes(v));
}

/// A copy of the bytes of `data` from `from` up to `to`.
pub fn copy_bytes(data: &[u8], from: usize, to: usize) -> (out: Vec<u8>)
    requires
        from <= to <= data.len(),
    ensures
        out@ == data@.subrange(from as int, to as int),
{
    vstd::slice::slice_to_vec(vstd::slice::slice_subrange(data, from, to))
}

} // verus!
