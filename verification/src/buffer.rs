//! The byte chunks that the export channel delivers, and the big-endian
//! integers that frame them.

use bytes::Buf;
use bytes::Bytes;
use vstd::prelude::*;

verus! {

/// `bytes::Bytes`: a cheaply cloneable, sliceable view into shared memory.
#[verifier::external_type_specification]
#[verifier::external_body]
pub struct ExBytes(bytes::Bytes);

/// The bytes that a chunk currently holds, first to last.
pub uninterp spec fn contents(chunk: Bytes) -> Seq<u8>;

/// The signed 16-bit integer that two bytes spell in network order.
pub open spec fn be_i16(b: Seq<u8>) -> int
    recommends
        b.len() == 2,
{
    let unsigned = b[0] as int * 0x100 + b[1] as int;
    if unsigned >= 0x8000 {
        unsigned - 0x1_0000
    } else {
        unsigned
    }
}

/// The unsigned 32-bit integer that four bytes spell in network order.
pub open spec fn be_u32(b: Seq<u8>) -> int
    recommends
        b.len() == 4,
{
    b[0] as int * 0x100_0000 + b[1] as int * 0x1_0000 + b[2] as int * 0x100 + b[3] as int
}

/// The signed 32-bit integer that four bytes spell in network order.
pub open spec fn be_i32(b: Seq<u8>) -> int
    recommends
        b.len() == 4,
{
    if be_u32(b) >= 0x8000_0000 {
        be_u32(b) - 0x1_0000_0000
    } else {
        be_u32(b)
    }
}

/// `Clone::clone` on `Bytes`: a second handle on the same memory, holding
/// the same bytes.
#[verifier::external_body]
pub(crate) fn share(chunk: &Bytes) -> (handle: Bytes)
    ensures
        contents(handle) == contents(*chunk),
{
    chunk.clone()
}

/// `Buf::remaining` on `Bytes`: the number of bytes that the chunk holds.
#[verifier::external_body]
pub(crate) fn remaining(chunk: &Bytes) -> (count: usize)
    ensures
        count == contents(*chunk).len(),
{
    chunk.remaining()
}

/// `AsRef::<[u8]>::as_ref` on `Bytes`: the bytes of the chunk as a borrowed
/// slice, without a copy.
#[verifier::external_body]
pub(crate) fn as_slice(chunk: &Bytes) -> (bytes: &[u8])
    ensures
        bytes@ == contents(*chunk),
{
    chunk.as_ref()
}

/// `Buf::advance` on `Bytes`: drops the first `count` bytes from the chunk.
/// The call panics when the chunk holds fewer.
#[verifier::external_body]
pub(crate) fn advance(chunk: &mut Bytes, count: usize)
    requires
        count <= contents(*old(chunk)).len(),
    ensures
        contents(*final(chunk)) == contents(*old(chunk)).skip(count as int),
{
    chunk.advance(count)
}

/// `Buf::get_i16` on `Bytes`: reads the first two bytes as a big-endian signed
/// integer and drops them from the chunk. The call panics when the chunk
/// holds fewer than two bytes.
#[verifier::external_body]
pub(crate) fn get_i16(chunk: &mut Bytes) -> (value: i16)
    requires
        contents(*old(chunk)).len() >= 2,
    ensures
        value == be_i16(contents(*old(chunk)).take(2)),
        contents(*final(chunk)) == contents(*old(chunk)).skip(2),
{
    chunk.get_i16()
}

/// `Buf::get_i32` on `Bytes`: reads the first four bytes as a big-endian
/// signed integer and drops them from the chunk. The call panics when the
/// chunk holds fewer than four bytes.
#[verifier::external_body]
pub(crate) fn get_i32(chunk: &mut Bytes) -> (value: i32)
    requires
        contents(*old(chunk)).len() >= 4,
    ensures
        value == be_i32(contents(*old(chunk)).take(4)),
        contents(*final(chunk)) == contents(*old(chunk)).skip(4),
{
    chunk.get_i32()
}

/// `Buf::get_u32` on `Bytes`: reads the first four bytes as a big-endian
/// unsigned integer and drops them from the chunk. The call panics when the
/// chunk holds fewer than four bytes.
#[verifier::external_body]
pub(crate) fn get_u32(chunk: &mut Bytes) -> (value: u32)
    requires
        contents(*old(chunk)).len() >= 4,
    ensures
        value == be_u32(contents(*old(chunk)).take(4)),
        contents(*final(chunk)) == contents(*old(chunk)).skip(4),
{
    chunk.get_u32()
}

/// `Bytes::slice` with the range `begin..end`: a new handle on the same
/// memory that holds the bytes from `begin` up to `end`. The call panics
/// unless `begin <= end` and `end` is within the chunk.
#[verifier::external_body]
pub(crate) fn slice(chunk: &Bytes, begin: usize, end: usize) -> (part: Bytes)
    requires
        begin <= end <= contents(*chunk).len(),
    ensures
        contents(part) == contents(*chunk).subrange(begin as int, end as int),
{
    chunk.slice(begin..end)
}

} // verus!
