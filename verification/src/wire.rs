//! Little-endian field readers shared by the header, information and ELF
//! section decoders, together with the spec-level functions the decoders'
//! contracts are stated over.

use vstd::bytes::{
    spec_u16_from_le_bytes, spec_u32_from_le_bytes, spec_u64_from_le_bytes, u16_from_le_bytes,
    u32_from_le_bytes, u64_from_le_bytes,
};
use vstd::prelude::*;
use vstd::slice::slice_subrange;

verus! {

/// The `u16` stored little-endian at byte offset `i` of `s`.
pub open spec fn le16_at(s: Seq<u8>, i: int) -> u16
    recommends
        0 <= i,
        i + 2 <= s.len(),
{
    spec_u16_from_le_bytes(s.subrange(i, i + 2))
}

/// The `u32` stored little-endian at byte offset `i` of `s`.
pub open spec fn le32_at(s: Seq<u8>, i: int) -> u32
    recommends
        0 <= i,
        i + 4 <= s.len(),
{
    spec_u32_from_le_bytes(s.subrange(i, i + 4))
}

/// The `u64` stored little-endian at byte offset `i` of `s`.
pub open spec fn le64_at(s: Seq<u8>, i: int) -> u64
    recommends
        0 <= i,
        i + 8 <= s.len(),
{
    spec_u64_from_le_bytes(s.subrange(i, i + 8))
}

/// Read the little-endian `u16` at byte offset `off`.
pub fn read_u16(bytes: &[u8], off: usize) -> (r: u16)
    requires
        off + 2 <= bytes@.len(),
    ensures
        r == le16_at(bytes@, off as int),
{
    let n: usize = bytes.len();
    u16_from_le_bytes(slice_subrange(bytes, off, off + 2))
}

/// Read the little-endian `u32` at byte offset `off`.
pub fn read_u32(bytes: &[u8], off: usize) -> (r: u32)
    requires
        off + 4 <= bytes@.len(),
    ensures
        r == le32_at(bytes@, off as int),
{
    let n: usize = bytes.len();
    u32_from_le_bytes(slice_subrange(bytes, off, off + 4))
}

/// Read the little-endian `u64` at byte offset `off`.
pub fn read_u64(bytes: &[u8], off: usize) -> (r: u64)
    requires
        off + 8 <= bytes@.len(),
    ensures
        r == le64_at(bytes@, off as int),
{
    let n: usize = bytes.len();
    u64_from_le_bytes(slice_subrange(bytes, off, off + 8))
}


/// Whether at least one bit of `mask` is set in `flags`.
pub open spec fn spec_flag(flags: u32, mask: u32) -> bool {
    flags & mask != 0
}

/// `flags` with the bits of `mask` set or cleared according to `value`.
pub open spec fn update_flag(flags: u32, mask: u32, value: bool) -> u32 {
    if value {
        flags | mask
    } else {
        flags & !mask
    }
}

/// Set or clear the bits of `mask` in `flags`.
pub fn set_flag_value(flags: u32, mask: u32, value: bool) -> (r: u32)
    ensures
        r == update_flag(flags, mask, value),
{
    if value {
        flags | mask
    } else {
        flags & !mask
    }
}

/// Setting the bits of a non-empty `mask` makes the flag test true, clearing
/// them makes it false, and bits outside `mask` are untouched either way.
pub proof fn lemma_update_flag(flags: u32, mask: u32, other: u32)
    requires
        other & mask == 0,
    ensures
        spec_flag(update_flag(flags, mask, true), mask) == (mask != 0),
        !spec_flag(update_flag(flags, mask, false), mask),
        update_flag(flags, mask, true) & other == flags & other,
        update_flag(flags, mask, false) & other == flags & other,
{
    assert((flags | mask) & mask == mask) by (bit_vector);
    assert((flags & !mask) & mask == 0) by (bit_vector);
    assert(other & mask == 0 ==> (flags | mask) & other == flags & other) by (bit_vector);
    assert(other & mask == 0 ==> (flags & !mask) & other == flags & other) by (bit_vector);
}

/// `v` rounded up to the next multiple of 4096.
pub open spec fn spec_round_up_page(v: int) -> int {
    ((v + 4095) / 4096) * 4096
}

/// Round `v` up to the next multiple of 4096.
pub fn round_up_page(v: u64) -> (r: u64)
    requires
        v + 4095 <= u64::MAX,
    ensures
        r == spec_round_up_page(v as int),
        v <= r < v + 4096,
{
    proof {
        lemma_round_up_page_bounds(v as int);
    }
    ((v + 4095) / 4096) * 4096
}

/// Rounding up to a page boundary never moves a value by a page or more,
/// and never moves it down.
pub proof fn lemma_round_up_page_bounds(v: int)
    requires
        v >= 0,
    ensures
        v <= spec_round_up_page(v) < v + 4096,
{
    let q = (v + 4095) / 4096;
    assert(q * 4096 == spec_round_up_page(v));
    vstd::arithmetic::div_mod::lemma_fundamental_div_mod(v + 4095, 4096);
    vstd::arithmetic::div_mod::lemma_mod_bound(v + 4095, 4096);
}

} // verus!
