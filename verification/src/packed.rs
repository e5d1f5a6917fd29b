//! A 31-bit count and a one-bit flag that share one 32-bit word.
//!
//! The flag is the word's highest bit, the count its low 31 bits.
use vstd::prelude::*;

verus! {

/// The highest bit of a word: where the flag lives.
pub const FLAG_BIT: u32 = 0x8000_0000;

/// The low 31 bits of a word: where the count lives.
pub const COUNT_MASK: u32 = 0x7fff_ffff;

/// The flag that `word` carries.
pub open spec fn flag_of(word: u32) -> bool {
    word >= 0x8000_0000
}

/// The count that `word` carries.
pub open spec fn count_of(word: u32) -> nat {
    if word >= 0x8000_0000 {
        (word - 0x8000_0000) as nat
    } else {
        word as nat
    }
}

/// Packs `flag` and `count` into one word.
pub fn pack(flag: bool, count: u32) -> (word: u32)
    requires
        count < 0x8000_0000,
    ensures
        flag_of(word) == flag,
        count_of(word) == count,
{
    if flag {
        assert(count | 0x8000_0000u32 == count + 0x8000_0000u32) by (bit_vector)
            requires
                count < 0x8000_0000u32,
        ;
        count | FLAG_BIT
    } else {
        count
    }
}

/// Reads the flag of `word`.
pub fn flag(word: u32) -> (f: bool)
    ensures
        f == flag_of(word),
{
    assert((word & 0x8000_0000u32 != 0) == (word >= 0x8000_0000u32)) by (bit_vector);
    word & FLAG_BIT != 0
}

/// Reads the count of `word`.
pub fn count(word: u32) -> (c: u32)
    ensures
        c == count_of(word),
        c < 0x8000_0000,
{
    assert(word & 0x7fff_ffffu32 == if word >= 0x8000_0000u32 {
        (word - 0x8000_0000u32) as u32
    } else {
        word
    }) by (bit_vector);
    word & COUNT_MASK
}

/// Replaces the count of `word` and keeps its flag.
pub fn with_count(word: u32, count: u32) -> (next: u32)
    requires
        count < 0x8000_0000,
    ensures
        flag_of(next) == flag_of(word),
        count_of(next) == count,
{
    pack(flag(word), count)
}

} // verus!
