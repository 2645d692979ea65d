//! Reading the instruction word at a program counter that is 2-byte but not
//! necessarily 4-byte aligned.
use vstd::prelude::*;
use crate::memory::{Memory, le_value, u32_accessible, u32_at};

verus! {

/// The 32-bit word that starts `offset` bytes into the 8 bytes formed by the
/// aligned words `lo` (lower addresses) and `hi`.
pub open spec fn splice_words(lo: u32, hi: u32, offset: u64) -> u32 {
    ((((hi as u64) << 32u64) | (lo as u64)) >> (8 * offset)) as u32
}

/// Little-endian 32-bit word of four bytes.
pub open spec fn le4(b0: u8, b1: u8, b2: u8, b3: u8) -> u32 {
    (b0 as u32) | ((b1 as u32) << 8u32) | ((b2 as u32) << 16u32) | ((b3 as u32) << 24u32)
}

/// The instruction at `pc` can be fetched: the aligned word holding its first
/// byte, and for an unaligned `pc` the aligned word after it, can be read.
pub open spec fn fetchable(m: Map<int, u8>, pc: usize) -> bool {
    let aligned = pc - pc % 4;
    if pc % 4 == 0 {
        u32_accessible(m, pc)
    } else {
        &&& aligned + 4 <= usize::MAX
        &&& u32_accessible(m, aligned as usize)
        &&& u32_accessible(m, (aligned + 4) as usize)
    }
}

/// Extracts the instruction that starts `offset` bytes into the aligned word
/// `lo` and continues into the following aligned word `hi`.
pub fn splice_instruction(lo: u32, hi: u32, offset: u64) -> (r: u32)
    requires
        offset < 4,
    ensures
        r == splice_words(lo, hi, offset),
{
    let buffer: u64 = ((hi as u64) << 32u64) | (lo as u64);
    (buffer >> (8 * offset)) as u32
}

proof fn lemma_le4_value(b0: u8, b1: u8, b2: u8, b3: u8)
    by (bit_vector)
    ensures
        le4(b0, b1, b2, b3) == b0 + 256 * (b1 + 256 * (b2 + 256 * b3)),
{
}

proof fn lemma_splice_bytes(b0: u8, b1: u8, b2: u8, b3: u8, b4: u8, b5: u8, b6: u8, b7: u8)
    by (bit_vector)
    ensures
        splice_words(le4(b0, b1, b2, b3), le4(b4, b5, b6, b7), 1) == le4(b1, b2, b3, b4),
        splice_words(le4(b0, b1, b2, b3), le4(b4, b5, b6, b7), 2) == le4(b2, b3, b4, b5),
        splice_words(le4(b0, b1, b2, b3), le4(b4, b5, b6, b7), 3) == le4(b3, b4, b5, b6),
{
}

/// The 32-bit word at `a`, from its four bytes.
proof fn lemma_u32_at_bytes(m: Map<int, u8>, a: int)
    ensures
        u32_at(m, a) == le4(m[a], m[a + 1], m[a + 2], m[a + 3]),
{
    reveal_with_fuel(le_value, 5);
    lemma_le4_value(m[a], m[a + 1], m[a + 2], m[a + 3]);
}

/// Reads the instruction word at `pc`. For an unaligned `pc` the two aligned
/// words around it are read and the instruction is spliced out of them.
pub fn fetch_instruction<M: Memory>(mem: &M, pc: usize) -> (r: u32)
    requires
        fetchable(mem.bytes(), pc),
    ensures
        r == u32_at(mem.bytes(), pc as int),
{
    let offset: usize = pc % 4;
    if offset == 0 {
        mem.read_u32(pc)
    } else {
        let aligned: usize = pc - offset;
        let lo = mem.read_u32(aligned);
        let hi = mem.read_u32(aligned + 4);
        let r = splice_instruction(lo, hi, offset as u64);
        proof {
            let m = mem.bytes();
            let a = aligned as int;
            lemma_u32_at_bytes(m, a);
            lemma_u32_at_bytes(m, a + 4);
            lemma_u32_at_bytes(m, pc as int);
            lemma_splice_bytes(m[a], m[a + 1], m[a + 2], m[a + 3], m[a + 4], m[a + 5], m[a + 6], m[a + 7]);
        }
        r
    }
}

} // verus!
