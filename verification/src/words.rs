//! How bytes, nibbles and wider values are packed into the sixteen-bit words of
//! an instruction stream, stated as arithmetic.

use vstd::prelude::*;

verus! {

/// The low eight bits of a word: the opcode, in the first word of an instruction.
pub open spec fn low_byte(word: u16) -> u8 {
    (word % 256) as u8
}

/// The high eight bits of a word.
pub open spec fn high_byte(word: u16) -> u8 {
    (word / 256) as u8
}

/// The low four bits of a byte.
pub open spec fn low_nibble(byte: u8) -> u8 {
    byte % 16
}

/// The high four bits of a byte.
pub open spec fn high_nibble(byte: u8) -> u8 {
    byte / 16
}

/// The four-bit field of a word at `index`, counted from the low end.
pub open spec fn nibble_at(word: u16, index: int) -> u8 {
    if index == 0 {
        (word % 16) as u8
    } else if index == 1 {
        ((word / 16) % 16) as u8
    } else if index == 2 {
        ((word / 256) % 16) as u8
    } else {
        ((word / 4096) % 16) as u8
    }
}

/// A four-bit field read as a two's-complement number.
pub open spec fn sign_extend_4(nibble: u8) -> int {
    if nibble % 16 < 8 {
        (nibble % 16) as int
    } else {
        nibble % 16 - 16
    }
}

/// A byte read as a two's-complement number.
pub open spec fn sign_extend_8(byte: u8) -> int {
    if byte < 0x80 {
        byte as int
    } else {
        byte - 0x100
    }
}

/// A word read as a two's-complement number.
pub open spec fn sign_extend_16(word: u16) -> int {
    if word < 0x8000 {
        word as int
    } else {
        word - 0x1_0000
    }
}

/// Thirty-two bits read as a two's-complement number.
pub open spec fn sign_extend_32(value: u32) -> int {
    if value < 0x8000_0000 {
        value as int
    } else {
        value - 0x1_0000_0000
    }
}

/// Two consecutive words as one value, the first word the low half.
pub open spec fn spec_concat_words(low: u16, high: u16) -> u32 {
    (low + high * 0x1_0000) as u32
}

/// Four consecutive words as one value, the first word the lowest quarter.
pub open spec fn spec_concat_quad(w0: u16, w1: u16, w2: u16, w3: u16) -> u64 {
    (w0 + w1 * 0x1_0000 + w2 * 0x1_0000_0000 + w3 * 0x1_0000_0000_0000) as u64
}

/// Splits a word into its low and its high byte.
pub fn split_word(word: u16) -> (bytes: (u8, u8))
    ensures
        bytes.0 == low_byte(word),
        bytes.1 == high_byte(word),
{
    ((word % 256) as u8, (word / 256) as u8)
}

/// Splits a byte into its low and its high nibble.
pub fn split_byte(byte: u8) -> (nibbles: (u8, u8))
    ensures
        nibbles.0 == low_nibble(byte),
        nibbles.1 == high_nibble(byte),
        nibbles.0 < 16,
        nibbles.1 < 16,
{
    (byte % 16, byte / 16)
}

/// Reads one of the four nibbles of a word.
pub fn nibble(word: u16, index: u8) -> (value: u8)
    requires
        index < 4,
    ensures
        value == nibble_at(word, index as int),
        value < 16,
{
    if index == 0 {
        (word % 16) as u8
    } else if index == 1 {
        ((word / 16) % 16) as u8
    } else if index == 2 {
        ((word / 256) % 16) as u8
    } else {
        ((word / 4096) % 16) as u8
    }
}

pub fn signed_nibble(nibble: u8) -> (value: i8)
    ensures
        value == sign_extend_4(nibble),
        -8 <= value < 8,
{
    let low: u8 = nibble % 16;
    if low < 8 {
        low as i8
    } else {
        (low as i8) - 16
    }
}

pub fn signed_byte(byte: u8) -> (value: i8)
    ensures
        value == sign_extend_8(byte),
{
    if byte < 0x80 {
        byte as i8
    } else {
        ((byte as i16) - 0x100) as i8
    }
}

pub fn signed_word(word: u16) -> (value: i16)
    ensures
        value == sign_extend_16(word),
{
    if word < 0x8000 {
        word as i16
    } else {
        ((word as i32) - 0x1_0000) as i16
    }
}

pub fn signed_long(value: u32) -> (signed: i32)
    ensures
        signed == sign_extend_32(value),
{
    if value < 0x8000_0000 {
        value as i32
    } else {
        ((value as i64) - 0x1_0000_0000) as i32
    }
}

/// Joins two consecutive words, the first one low.
pub fn concat_words(low: u16, high: u16) -> (value: u32)
    ensures
        value == spec_concat_words(low, high),
        value == low + high * 0x1_0000,
{
    (low as u32) + (high as u32) * 0x1_0000
}

/// Joins four consecutive words, the first one lowest.
pub fn concat_quad(w0: u16, w1: u16, w2: u16, w3: u16) -> (value: u64)
    ensures
        value == spec_concat_quad(w0, w1, w2, w3),
        value == w0 + w1 * 0x1_0000 + w2 * 0x1_0000_0000 + w3 * 0x1_0000_0000_0000,
{
    (w0 as u64) + (w1 as u64) * 0x1_0000 + (w2 as u64) * 0x1_0000_0000 + (w3 as u64)
        * 0x1_0000_0000_0000
}

} // verus!
