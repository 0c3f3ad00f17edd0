//! Little-endian integers inside byte strings.

use byteorder::ByteOrder;
use vstd::prelude::*;
use vstd::slice::slice_subrange;

verus! {

broadcast use vstd::slice::group_slice_axioms;

/// The unsigned 16-bit integer whose little-endian bytes stand at `at`.
pub open spec fn le_u16(s: Seq<u8>, at: int) -> int {
    s[at] as int + 256 * (s[at + 1] as int)
}

/// The unsigned 32-bit integer whose little-endian bytes stand at `at`.
pub open spec fn le_u32(s: Seq<u8>, at: int) -> int {
    le_u16(s, at) + 65536 * le_u16(s, at + 2)
}

/// The unsigned 64-bit integer whose little-endian bytes stand at `at`.
pub open spec fn le_u64(s: Seq<u8>, at: int) -> int {
    le_u32(s, at) + 4294967296 * le_u32(s, at + 4)
}

/// The signed 16-bit integer, in two's complement, whose little-endian bytes
/// stand at `at`.
pub open spec fn le_i16(s: Seq<u8>, at: int) -> int {
    if le_u16(s, at) < 32768 {
        le_u16(s, at)
    } else {
        le_u16(s, at) - 65536
    }
}

/// The signed 32-bit integer, in two's complement, whose little-endian bytes
/// stand at `at`.
pub open spec fn le_i32(s: Seq<u8>, at: int) -> int {
    if le_u32(s, at) < 2147483648 {
        le_u32(s, at)
    } else {
        le_u32(s, at) - 4294967296
    }
}

/// The signed 64-bit integer, in two's complement, whose little-endian bytes
/// stand at `at`.
pub open spec fn le_i64(s: Seq<u8>, at: int) -> int {
    if le_u64(s, at) < 9223372036854775808 {
        le_u64(s, at)
    } else {
        le_u64(s, at) - 18446744073709551616
    }
}

/// `byteorder::LittleEndian::read_u16`: the first two bytes of `buf`, the
/// low byte first. The outside function panics on a shorter buffer.
#[verifier::external_body]
fn read_u16(buf: &[u8]) -> (v: u16)
    requires
        buf@.len() >= 2,
    ensures
        v as int == le_u16(buf@, 0),
{
    byteorder::LittleEndian::read_u16(buf)
}

/// `byteorder::LittleEndian::read_u32`: the first four bytes of `buf`, the
/// lowest byte first. The outside function panics on a shorter buffer.
#[verifier::external_body]
fn read_u32(buf: &[u8]) -> (v: u32)
    requires
        buf@.len() >= 4,
    ensures
        v as int == le_u32(buf@, 0),
{
    byteorder::LittleEndian::read_u32(buf)
}

/// `byteorder::LittleEndian::read_u64`: the first eight bytes of `buf`, the
/// lowest byte first. The outside function panics on a shorter buffer.
#[verifier::external_body]
fn read_u64(buf: &[u8]) -> (v: u64)
    requires
        buf@.len() >= 8,
    ensures
        v as int == le_u64(buf@, 0),
{
    byteorder::LittleEndian::read_u64(buf)
}

/// `byteorder::LittleEndian::read_i16`: the first two bytes of `buf`, the
/// low byte first, read as a two's complement number. The outside function
/// panics on a shorter buffer.
#[verifier::external_body]
fn read_i16(buf: &[u8]) -> (v: i16)
    requires
        buf@.len() >= 2,
    ensures
        v as int == le_i16(buf@, 0),
{
    byteorder::LittleEndian::read_i16(buf)
}

/// The unsigned 16-bit integer at offset `at` of `data`.
pub fn u16_at(data: &[u8], at: usize) -> (v: u16)
    requires
        at + 2 <= data.len(),
    ensures
        v as int == le_u16(data@, at as int),
{
    read_u16(slice_subrange(data, at, at + 2))
}

/// The unsigned 32-bit integer at offset `at` of `data`.
pub fn u32_at(data: &[u8], at: usize) -> (v: u32)
    requires
        at + 4 <= data.len(),
    ensures
        v as int == le_u32(data@, at as int),
{
    read_u32(slice_subrange(data, at, at + 4))
}

/// The unsigned 64-bit integer at offset `at` of `data`.
pub fn u64_at(data: &[u8], at: usize) -> (v: u64)
    requires
        at + 8 <= data.len(),
    ensures
        v as int == le_u64(data@, at as int),
{
    read_u64(slice_subrange(data, at, at + 8))
}

/// The signed 16-bit integer at offset `at` of `data`.
pub fn i16_at(data: &[u8], at: usize) -> (v: i16)
    requires
        at + 2 <= data.len(),
    ensures
        v as int == le_i16(data@, at as int),
{
    read_i16(slice_subrange(data, at, at + 2))
}

/// The signed 32-bit integer at offset `at` of `data`.
pub fn i32_at(data: &[u8], at: usize) -> (v: i32)
    requires
        at + 4 <= data.len(),
    ensures
        v as int == le_i32(data@, at as int),
{
    let unsigned: u32 = u32_at(data, at);
    if unsigned < 0x8000_0000 {
        unsigned as i32
    } else {
        (unsigned as i64 - 0x1_0000_0000) as i32
    }
}

/// The signed 64-bit integer at offset `at` of `data`.
pub fn i64_at(data: &[u8], at: usize) -> (v: i64)
    requires
        at + 8 <= data.len(),
    ensures
        v as int == le_i64(data@, at as int),
{
    let unsigned: u64 = u64_at(data, at);
    if unsigned < 0x8000_0000_0000_0000 {
        unsigned as i64
    } else {
        (unsigned as i128 - 0x1_0000_0000_0000_0000) as i64
    }
}

/// The bytes of `data` from `from` up to `to`, as a vector of their own.
pub fn copy_range(data: &[u8], from: usize, to: usize) -> (out: Vec<u8>)
    requires
        from <= to <= data.len(),
    ensures
        out@ == data@.subrange(from as int, to as int),
{
    vstd::slice::slice_to_vec(slice_subrange(data, from, to))
}

/// Whether two byte strings are equal, byte for byte.
pub fn bytes_equal(a: &[u8], b: &[u8]) -> (equal: bool)
    ensures
        equal == (a@ == b@),
{
    if a.len() != b.len() {
        return false;
    }
    let mut i: usize = 0;
    while i < a.len()
        invariant
            i <= a.len(),
            a.len() == b.len(),
            forall|j: int| 0 <= j < i ==> a@[j] == b@[j],
        decreases a.len() - i,
    {
        if a[i] != b[i] {
            return false;
        }
        i = i + 1;
    }
    assert(a@ =~= b@);
    true
}

} // verus!
