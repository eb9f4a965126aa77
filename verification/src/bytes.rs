//! Big-endian integer fields and UTF-8 text inside a byte buffer.

use byteorder::{BigEndian, ByteOrder};
use vstd::prelude::*;
use vstd::slice::slice_subrange;
use vstd::string::StringSliceAdditionalSpecFns;
use vstd::utf8::{decode_utf8, encode_utf8_decode_utf8, valid_utf8};

verus! {

/// Whether `len` bytes starting at `at` lie inside a buffer of `total` bytes.
pub open spec fn in_bounds(total: int, at: int, len: int) -> bool {
    0 <= at && 0 <= len && at + len <= total
}

/// The unsigned number that the first two bytes of `b` spell, high byte first.
pub open spec fn be_u16(b: Seq<u8>) -> int
    recommends
        b.len() >= 2,
{
    b[0] as int * 0x100 + b[1] as int
}

/// The signed number that the first two bytes of `b` spell in two's
/// complement, high byte first.
pub open spec fn be_i16(b: Seq<u8>) -> int
    recommends
        b.len() >= 2,
{
    if be_u16(b) < 0x8000 {
        be_u16(b)
    } else {
        be_u16(b) - 0x1_0000
    }
}

/// The unsigned number that the first four bytes of `b` spell, high byte first.
pub open spec fn be_u32(b: Seq<u8>) -> int
    recommends
        b.len() >= 4,
{
    b[0] as int * 0x100_0000 + b[1] as int * 0x1_0000 + b[2] as int * 0x100 + b[3] as int
}

/// The big-endian `u16` stored at `data[at..at + 2]`.
pub open spec fn u16_at(data: Seq<u8>, at: int) -> u16
    recommends
        0 <= at,
        at + 2 <= data.len(),
{
    be_u16(data.subrange(at, at + 2)) as u16
}

/// The big-endian `i16` stored at `data[at..at + 2]`.
pub open spec fn i16_at(data: Seq<u8>, at: int) -> i16
    recommends
        0 <= at,
        at + 2 <= data.len(),
{
    be_i16(data.subrange(at, at + 2)) as i16
}

/// The big-endian `u32` stored at `data[at..at + 4]`.
pub open spec fn u32_at(data: Seq<u8>, at: int) -> u32
    recommends
        0 <= at,
        at + 4 <= data.len(),
{
    be_u32(data.subrange(at, at + 4)) as u32
}

/// The text that `bytes` encode, or `None` where they are not valid UTF-8.
pub open spec fn utf8_text(bytes: Seq<u8>) -> Option<Seq<char>> {
    if valid_utf8(bytes) {
        Some(decode_utf8(bytes))
    } else {
        None
    }
}

/// Calls `byteorder::BigEndian::read_u16`, which panics on fewer than two
/// bytes and otherwise returns `u16::from_be_bytes` of the first two.
#[verifier::external_body]
fn be_read_u16(buf: &[u8]) -> (r: u16)
    requires
        buf@.len() >= 2,
    ensures
        r == be_u16(buf@),
{
    BigEndian::read_u16(buf)
}

/// Calls `byteorder::BigEndian::read_i16`, which panics on fewer than two
/// bytes and otherwise reinterprets the big-endian `u16` of the first two as
/// a signed number.
#[verifier::external_body]
fn be_read_i16(buf: &[u8]) -> (r: i16)
    requires
        buf@.len() >= 2,
    ensures
        r == be_i16(buf@),
{
    BigEndian::read_i16(buf)
}

/// Calls `byteorder::BigEndian::read_u32`, which panics on fewer than four
/// bytes and otherwise returns `u32::from_be_bytes` of the first four.
#[verifier::external_body]
fn be_read_u32(buf: &[u8]) -> (r: u32)
    requires
        buf@.len() >= 4,
    ensures
        r == be_u32(buf@),
{
    BigEndian::read_u32(buf)
}

/// Calls `std::str::from_utf8`, which accepts exactly the byte strings that
/// are valid UTF-8 and then hands the same bytes back as a string slice.
#[verifier::external_body]
fn str_from_utf8(bytes: &[u8]) -> (r: Option<&str>)
    ensures
        r is Some <==> valid_utf8(bytes@),
        r matches Some(s) ==> s.spec_bytes() == bytes@,
{
    std::str::from_utf8(bytes).ok()
}

/// A slice has no more elements than a `usize` can count.
pub proof fn lemma_len_fits(data: &[u8])
    ensures
        data@.len() <= usize::MAX,
{
    assert(vstd::slice::spec_slice_len(data) == data@.len());
}

/// The big-endian `u16` at `data[at..at + 2]`.
pub(crate) fn get_u16(data: &[u8], at: usize) -> (v: u16)
    requires
        in_bounds(data@.len() as int, at as int, 2),
    ensures
        v == u16_at(data@, at as int),
{
    proof {
        lemma_len_fits(data);
    }
    be_read_u16(slice_subrange(data, at, at + 2))
}

/// The big-endian `i16` at `data[at..at + 2]`.
pub(crate) fn get_i16(data: &[u8], at: usize) -> (v: i16)
    requires
        in_bounds(data@.len() as int, at as int, 2),
    ensures
        v == i16_at(data@, at as int),
{
    proof {
        lemma_len_fits(data);
    }
    be_read_i16(slice_subrange(data, at, at + 2))
}

/// The big-endian `u32` at `data[at..at + 4]`.
pub(crate) fn get_u32(data: &[u8], at: usize) -> (v: u32)
    requires
        in_bounds(data@.len() as int, at as int, 4),
    ensures
        v == u32_at(data@, at as int),
{
    proof {
        lemma_len_fits(data);
    }
    be_read_u32(slice_subrange(data, at, at + 4))
}

/// Reads the big-endian `u16` at `data[at..at + 2]`; `None` where the buffer
/// ends before that.
pub fn read_u16_at(data: &[u8], at: usize) -> (r: Option<u16>)
    ensures
        r == (if in_bounds(data@.len() as int, at as int, 2) {
            Some(u16_at(data@, at as int))
        } else {
            None
        }),
{
    if data.len() < 2 || at > data.len() - 2 {
        None
    } else {
        Some(get_u16(data, at))
    }
}

/// Reads the big-endian `i16` at `data[at..at + 2]`; `None` where the buffer
/// ends before that.
pub fn read_i16_at(data: &[u8], at: usize) -> (r: Option<i16>)
    ensures
        r == (if in_bounds(data@.len() as int, at as int, 2) {
            Some(i16_at(data@, at as int))
        } else {
            None
        }),
{
    if data.len() < 2 || at > data.len() - 2 {
        None
    } else {
        Some(get_i16(data, at))
    }
}

/// Reads the big-endian `u32` at `data[at..at + 4]`; `None` where the buffer
/// ends before that.
pub fn read_u32_at(data: &[u8], at: usize) -> (r: Option<u32>)
    ensures
        r == (if in_bounds(data@.len() as int, at as int, 4) {
            Some(u32_at(data@, at as int))
        } else {
            None
        }),
{
    if data.len() < 4 || at > data.len() - 4 {
        None
    } else {
        Some(get_u32(data, at))
    }
}

/// Decodes `bytes` as UTF-8 text; `None` where they are not valid UTF-8.
pub fn decode_text(bytes: &[u8]) -> (r: Option<String>)
    ensures
        match utf8_text(bytes@) {
            Some(text) => r matches Some(s) && s@ == text,
            None => r is None,
        },
{
    match str_from_utf8(bytes) {
        Some(s) => {
            proof {
                encode_utf8_decode_utf8(s@);
            }
            Some(s.to_owned())
        },
        None => None,
    }
}

} // verus!
