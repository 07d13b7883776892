//! The word codec: a 16-bit word carries a 4-bit opcode field in its top
//! bits and a 12-bit data field in its low bits.  Addresses are masked to
//! the same 12 bits, so the data field of a word doubles as an in-range
//! memory address.

use vstd::prelude::*;

verus! {

/// The opcode field of a word: its top 4 bits.
pub open spec fn op_of(w: u16) -> u16 {
    w >> 12
}

/// The data field of a word: its low 12 bits.  Also the mask that brings
/// an address into the 4096-word address space.
pub open spec fn data_of(w: u16) -> u16 {
    w & 0xFFF
}

/// The program counter (or a bulk-load cursor) after one increment:
/// one more, wrapping from 4095 back to 0.
pub open spec fn inc_addr(a: u16) -> u16 {
    ((a + 1) as u16) & 0xFFF
}

/// A left shift of the full 16-bit word; a shift by 16 or more drives
/// every bit out.
pub open spec fn shl16(x: u16, amt: u16) -> u16 {
    if amt >= 16 {
        0
    } else {
        x << amt
    }
}

/// A logical right shift of the full 16-bit word; a shift by 16 or more
/// drives every bit out.
pub open spec fn shr16(x: u16, amt: u16) -> u16 {
    if amt >= 16 {
        0
    } else {
        x >> amt
    }
}

pub proof fn lemma_data_of_bound(w: u16)
    ensures
        data_of(w) < 4096,
        data_of(w) == w % 4096,
{
    assert(w & 0xFFF < 4096 && w & 0xFFF == w % 4096) by (bit_vector);
}

pub proof fn lemma_data_of_small(w: u16)
    requires
        w < 4096,
    ensures
        data_of(w) == w,
{
    assert(w < 4096 ==> w & 0xFFF == w) by (bit_vector);
}

pub proof fn lemma_inc_addr_bound(a: u16)
    ensures
        inc_addr(a) < 4096,
{
    let q = (a + 1) as u16;
    assert(q & 0xFFF < 4096) by (bit_vector);
}

/// Merging a new data field into a word keeps the word's opcode field.
pub proof fn lemma_merge_keeps_opcode(w: u16, v: u16)
    ensures
        op_of((w & 0xF000) | data_of(v)) == op_of(w),
        data_of((w & 0xF000) | data_of(v)) == data_of(v),
{
    assert(((w & 0xF000) | (v & 0xFFF)) >> 12 == w >> 12) by (bit_vector);
    assert(((w & 0xF000) | (v & 0xFFF)) & 0xFFF == v & 0xFFF) by (bit_vector);
}

/// The opcode field of a word, computed bit by bit.
pub fn word_opcode(w: u16) -> (r: u16)
    ensures
        r == op_of(w),
        r <= 0xF,
{
    proof {
        assert((w >> 12) & 0x000F == w >> 12 && w >> 12 <= 0xF) by (bit_vector);
    }
    (w >> 12) & 0x000F
}

/// The data field of a word, which is always an in-range address.
pub fn word_data(w: u16) -> (r: u16)
    ensures
        r == data_of(w),
        r < 4096,
{
    proof {
        lemma_data_of_bound(w);
    }
    w & 0x0FFF
}

/// A left shift that is total over every shift amount.
pub fn shl_word(x: u16, amt: u16) -> (r: u16)
    ensures
        r == shl16(x, amt),
{
    if amt >= 16 {
        0
    } else {
        x << amt
    }
}

/// A right shift that is total over every shift amount.
pub fn shr_word(x: u16, amt: u16) -> (r: u16)
    ensures
        r == shr16(x, amt),
{
    if amt >= 16 {
        0
    } else {
        x >> amt
    }
}

} // verus!
