//! The packed-character encoding of the small output port: a word packs
//! two 6-bit codes, each mapping to a letter, a digit, a space, or to no
//! character at all.

use vstd::prelude::*;

verus! {

/// The byte a 6-bit code emits: 0-25 map to 'A'-'Z', 26-51 to 'a'-'z',
/// 52-61 to '0'-'9', 62 to space, and 63 to no character.
pub open spec fn small_char(c: u8) -> Option<u8> {
    if c <= 25 {
        Some((65 + c) as u8)
    } else if c <= 51 {
        Some((97 + (c - 26)) as u8)
    } else if c <= 61 {
        Some((48 + (c - 52)) as u8)
    } else if c == 62 {
        Some(32u8)
    } else {
        None
    }
}

/// The bytes one optional character contributes to the stream.
pub open spec fn opt_bytes(c: Option<u8>) -> Seq<u8> {
    match c {
        Some(b) => seq![b],
        None => Seq::empty(),
    }
}

/// The bytes a word written to the packed-character port emits: the low
/// 6 bits first, then the high 6 bits of the 12-bit data field.
pub open spec fn small_bytes(v: u16) -> Seq<u8> {
    opt_bytes(small_char((v & 0x3F) as u8)) + opt_bytes(small_char(((v >> 6) & 0x3F) as u8))
}

/// One 6-bit code's character, if it has one.
fn small_char_code(c: u8) -> (r: Option<u8>)
    ensures
        r == small_char(c),
{
    if c <= 25 {
        Some(65 + c)
    } else if c <= 51 {
        Some(97 + (c - 26))
    } else if c <= 61 {
        Some(48 + (c - 52))
    } else if c == 62 {
        Some(32)
    } else {
        None
    }
}

/// Split a word into its two 6-bit codes and map each through the
/// packed-character table: the first element is the low code's
/// character, the second the high code's.
pub fn small_to_chars(small: u16) -> (r: [Option<u8>; 2])
    ensures
        r[0] == small_char((small & 0x3F) as u8),
        r[1] == small_char(((small >> 6) & 0x3F) as u8),
{
    proof {
        assert(small & 0x3F < 256 && (small >> 6) & 0x3F < 256) by (bit_vector);
    }
    let former = (small & 0x3F) as u8;
    let latter = ((small >> 6) & 0x3F) as u8;
    [small_char_code(former), small_char_code(latter)]
}

} // verus!
