//! Little-endian integers read from byte buffers.
//!
//! A buffer is read the way `std::io::Cursor` reads it: a read of `n` bytes at
//! position `pos` succeeds exactly when `pos + n` does not pass the end.

use byteorder::{ByteOrder, LittleEndian};
use vstd::prelude::*;

verus! {

/// The unsigned integer whose little-endian bytes are `b[0]`, `b[1]`, ....
pub open spec fn le_value(b: Seq<u8>) -> nat
    decreases b.len(),
{
    if b.len() == 0 {
        0
    } else {
        b[0] as nat + 256 * le_value(b.drop_first())
    }
}

/// The `u32` stored little-endian in the first four bytes of `b`.
pub open spec fn le_u32(b: Seq<u8>) -> u32 {
    le_value(b.take(4)) as u32
}

/// The `u64` stored little-endian in the first eight bytes of `b`.
pub open spec fn le_u64(b: Seq<u8>) -> u64 {
    le_value(b.take(8)) as u64
}

/// Whether `n` bytes can be read at `pos` in a buffer of length `len`.
pub open spec fn fits(len: nat, pos: int, n: int) -> bool {
    0 <= pos && pos + n <= len
}

/// The `n` bytes found at `pos` in `data`.
pub open spec fn bytes_at(data: Seq<u8>, pos: int, n: int) -> Seq<u8> {
    data.subrange(pos, pos + n)
}

pub proof fn lemma_le_value_bound(b: Seq<u8>)
    ensures
        le_value(b) < pow256(b.len()),
    decreases b.len(),
{
    if b.len() > 0 {
        lemma_le_value_bound(b.drop_first());
    }
}

proof fn lemma_le_fixed_bounds(b: Seq<u8>)
    ensures
        b.len() >= 4 ==> le_value(b.take(4)) <= u32::MAX,
        b.len() >= 8 ==> le_value(b.take(8)) <= u64::MAX,
{
    reveal_with_fuel(pow256, 9);
    lemma_le_value_bound(b.take(4));
    lemma_le_value_bound(b.take(8));
}

/// `256` to the power `n`.
pub open spec fn pow256(n: nat) -> nat
    decreases n,
{
    if n == 0 {
        1
    } else {
        256 * pow256((n - 1) as nat)
    }
}

/// Reads the little-endian `u32` at the start of `buf` with
/// `byteorder::LittleEndian::read_u32`, which reads the first four bytes.
#[verifier::external_body]
fn byteorder_read_u32(buf: &[u8]) -> (r: u32)
    requires
        buf@.len() >= 4,
    ensures
        r == le_value(buf@.take(4)),
{
    LittleEndian::read_u32(buf)
}

/// Reads the little-endian `u64` at the start of `buf` with
/// `byteorder::LittleEndian::read_u64`, which reads the first eight bytes.
#[verifier::external_body]
fn byteorder_read_u64(buf: &[u8]) -> (r: u64)
    requires
        buf@.len() >= 8,
    ensures
        r == le_value(buf@.take(8)),
{
    LittleEndian::read_u64(buf)
}

/// The `u32` stored little-endian at `pos` in `data`, or `None` when fewer than
/// four bytes remain there.
pub fn read_u32_at(data: &[u8], pos: u64) -> (r: Option<u32>)
    ensures
        r == (if fits(data@.len(), pos as int, 4) {
            Some(le_u32(bytes_at(data@, pos as int, 4)))
        } else {
            None::<u32>
        }),
{
    if pos <= data.len() as u64 && data.len() as u64 - pos >= 4 {
        let p: usize = pos as usize;
        let v = byteorder_read_u32(vstd::slice::slice_subrange(data, p, p + 4));
        assert(bytes_at(data@, pos as int, 4).take(4) =~= bytes_at(data@, pos as int, 4));
        proof {
            lemma_le_fixed_bounds(bytes_at(data@, pos as int, 4));
        }
        Some(v)
    } else {
        None
    }
}

/// The `u64` stored little-endian at `pos` in `data`, or `None` when fewer than
/// eight bytes remain there.
pub fn read_u64_at(data: &[u8], pos: u64) -> (r: Option<u64>)
    ensures
        r == (if fits(data@.len(), pos as int, 8) {
            Some(le_u64(bytes_at(data@, pos as int, 8)))
        } else {
            None::<u64>
        }),
{
    if pos <= data.len() as u64 && data.len() as u64 - pos >= 8 {
        let p: usize = pos as usize;
        let v = byteorder_read_u64(vstd::slice::slice_subrange(data, p, p + 8));
        assert(bytes_at(data@, pos as int, 8).take(8) =~= bytes_at(data@, pos as int, 8));
        proof {
            lemma_le_fixed_bounds(bytes_at(data@, pos as int, 8));
        }
        Some(v)
    } else {
        None
    }
}

} // verus!
