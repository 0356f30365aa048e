//! Little-endian byte-layout helpers: writing and reading fixed-width
//! integers at byte offsets of a caller-supplied buffer.

use vstd::bytes::{
    lemma_auto_spec_u16_to_from_le_bytes, lemma_auto_spec_u32_to_from_le_bytes,
    lemma_auto_spec_u64_to_from_le_bytes, spec_u16_from_le_bytes, spec_u16_to_le_bytes,
    spec_u32_from_le_bytes, spec_u32_to_le_bytes, spec_u64_from_le_bytes, spec_u64_to_le_bytes,
    u16_from_le_bytes, u16_to_le_bytes, u32_from_le_bytes, u32_to_le_bytes, u64_from_le_bytes,
    u64_to_le_bytes,
};
use vstd::prelude::*;
use vstd::slice::slice_subrange;

verus! {

broadcast use vstd::std_specs::vec::axiom_spec_len;

/// Overwrites `buf[at..at + src.len()]` with `src`, leaving everything else
/// in place.
pub fn write_bytes_at(buf: &mut Vec<u8>, at: usize, src: &Vec<u8>)
    requires
        at + src@.len() <= old(buf)@.len(),
    ensures
        final(buf)@ == old(buf)@.take(at as int) + src@ + old(buf)@.skip(at as int + src@.len()),
{
    proof {
        vstd::std_specs::vec::axiom_spec_len(&*buf);
    }
    let n = src.len();
    let mut i: usize = 0;
    while i < n
        invariant
            n == src@.len(),
            at + n <= old(buf)@.len(),
            at + n <= usize::MAX,
            0 <= i <= n,
            buf@ == old(buf)@.take(at as int) + src@.take(i as int) + old(buf)@.skip(
                at as int + i,
            ),
        decreases n - i,
    {
        buf[at + i] = src[i];
        proof {
            assert(buf@ =~= old(buf)@.take(at as int) + src@.take(i + 1) + old(buf)@.skip(
                at as int + i + 1,
            ));
        }
        i = i + 1;
    }
    proof {
        assert(src@.take(n as int) =~= src@);
    }
}

/// Writes one byte at `at`.
pub fn write_u8_at(buf: &mut Vec<u8>, at: usize, x: u8)
    requires
        at + 1 <= old(buf)@.len(),
    ensures
        final(buf)@ == old(buf)@.take(at as int) + seq![x] + old(buf)@.skip(at as int + 1),
{
    buf[at] = x;
    proof {
        assert(buf@ =~= old(buf)@.take(at as int) + seq![x] + old(buf)@.skip(at as int + 1));
    }
}

/// Writes the two little-endian bytes of `x` at `at`.
pub fn write_u16_at(buf: &mut Vec<u8>, at: usize, x: u16)
    requires
        at + 2 <= old(buf)@.len(),
    ensures
        final(buf)@ == old(buf)@.take(at as int) + spec_u16_to_le_bytes(x) + old(buf)@.skip(
            at as int + 2,
        ),
{
    proof {
        lemma_auto_spec_u16_to_from_le_bytes();
    }
    let bytes = u16_to_le_bytes(x);
    write_bytes_at(buf, at, &bytes);
}

/// Writes the four little-endian bytes of `x` at `at`.
pub fn write_u32_at(buf: &mut Vec<u8>, at: usize, x: u32)
    requires
        at + 4 <= old(buf)@.len(),
    ensures
        final(buf)@ == old(buf)@.take(at as int) + spec_u32_to_le_bytes(x) + old(buf)@.skip(
            at as int + 4,
        ),
{
    proof {
        lemma_auto_spec_u32_to_from_le_bytes();
    }
    let bytes = u32_to_le_bytes(x);
    write_bytes_at(buf, at, &bytes);
}

/// Writes the eight little-endian bytes of `x` at `at`.
pub fn write_u64_at(buf: &mut Vec<u8>, at: usize, x: u64)
    requires
        at + 8 <= old(buf)@.len(),
    ensures
        final(buf)@ == old(buf)@.take(at as int) + spec_u64_to_le_bytes(x) + old(buf)@.skip(
            at as int + 8,
        ),
{
    proof {
        lemma_auto_spec_u64_to_from_le_bytes();
    }
    let bytes = u64_to_le_bytes(x);
    write_bytes_at(buf, at, &bytes);
}

/// Reads one byte at `at`.
pub fn read_u8_at(buf: &Vec<u8>, at: usize) -> (r: u8)
    requires
        at + 1 <= buf@.len(),
    ensures
        r == buf@[at as int],
{
    buf[at]
}

/// Reads a 16-bit little-endian value at `at`.
pub fn read_u16_at(buf: &Vec<u8>, at: usize) -> (r: u16)
    requires
        at + 2 <= buf@.len(),
    ensures
        r == spec_u16_from_le_bytes(buf@.subrange(at as int, at as int + 2)),
{
    proof {
        vstd::std_specs::vec::axiom_spec_len(buf);
    }
    u16_from_le_bytes(slice_subrange(buf.as_slice(), at, at + 2))
}

/// Reads a 32-bit little-endian value at `at`.
pub fn read_u32_at(buf: &Vec<u8>, at: usize) -> (r: u32)
    requires
        at + 4 <= buf@.len(),
    ensures
        r == spec_u32_from_le_bytes(buf@.subrange(at as int, at as int + 4)),
{
    proof {
        vstd::std_specs::vec::axiom_spec_len(buf);
    }
    u32_from_le_bytes(slice_subrange(buf.as_slice(), at, at + 4))
}

/// Reads a 64-bit little-endian value at `at`.
pub fn read_u64_at(buf: &Vec<u8>, at: usize) -> (r: u64)
    requires
        at + 8 <= buf@.len(),
    ensures
        r == spec_u64_from_le_bytes(buf@.subrange(at as int, at as int + 8)),
{
    proof {
        vstd::std_specs::vec::axiom_spec_len(buf);
    }
    u64_from_le_bytes(slice_subrange(buf.as_slice(), at, at + 8))
}

} // verus!
