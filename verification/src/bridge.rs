//! The guest→host memory-return convention.
//!
//! A wasm guest export returns a single `u64` that packs a `(ptr, len)` pair
//! addressing the emitted bytes in the guest's linear memory (wasm32 pointers
//! are 32-bit). The guest packs it ([`pack_ptr_len`]) and the host unpacks it
//! ([`unpack_ptr_len`]). Both live here so the two sides share one definition
//! of the layout.

use vstd::prelude::*;

verus! {

/// The packed word for `(ptr, len)`: the high 32 bits hold the pointer, the low
/// 32 bits the length.
pub open spec fn packed(ptr: u32, len: u32) -> int {
    ptr as int * 0x1_0000_0000 + len as int
}

/// The high 32 bits hold the pointer, the low 32 bits hold the length.
pub fn pack_ptr_len(ptr: u32, len: u32) -> (r: u64)
    ensures
        r as int == packed(ptr, len),
{
    let r = ((ptr as u64) << 32u64) | (len as u64);
    assert(((ptr as u64) << 32u64) | (len as u64) == (ptr as u64) * 0x1_0000_0000u64 + (len as u64))
        by (bit_vector);
    r
}

/// Inverse of [`pack_ptr_len`]: `(ptr, len)`.
pub fn unpack_ptr_len(packed_word: u64) -> (r: (u32, u32))
    ensures
        packed(r.0, r.1) == packed_word as int,
{
    let ptr = (packed_word >> 32u64) as u32;
    let len = (packed_word & 0xFFFF_FFFFu64) as u32;
    assert((packed_word >> 32u64) as u32 as u64 * 0x1_0000_0000u64 + (packed_word & 0xFFFF_FFFFu64) as u32 as u64
        == packed_word) by (bit_vector);
    (ptr, len)
}

/// The packing is a lossless, invertible encoding: unpacking a packed pair gives
/// the pair back, so no two `(ptr, len)` pairs share a word.
pub proof fn lemma_pack_unpack_round_trip(ptr: u32, len: u32, ptr2: u32, len2: u32)
    requires
        packed(ptr2, len2) == packed(ptr, len),
    ensures
        ptr2 == ptr,
        len2 == len,
{
}

} // verus!
