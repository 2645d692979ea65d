//! The read-modify-write functions of the atomic memory operations.
use vstd::prelude::*;
use crate::decode::AmoOp;

verus! {

/// `a + b` modulo the machine word.
pub open spec fn wrapping_sum(a: usize, b: usize) -> usize {
    if a + b > usize::MAX {
        (a + b - usize::MAX - 1) as usize
    } else {
        (a + b) as usize
    }
}

/// The two's-complement value of the word `x`.
pub open spec fn signed_value(x: usize) -> int {
    if x <= isize::MAX {
        x as int
    } else {
        x as int - usize::MAX - 1
    }
}

/// The value that replaces `old` in memory when `op` runs with `operand`.
pub open spec fn amo_value(op: AmoOp, old: usize, operand: usize) -> usize {
    match op {
        AmoOp::Swap => operand,
        AmoOp::Add => wrapping_sum(old, operand),
        AmoOp::Xor => old ^ operand,
        AmoOp::And => old & operand,
        AmoOp::Or => old | operand,
        AmoOp::Min => if signed_value(old) <= signed_value(operand) { old } else { operand },
        AmoOp::Max => if signed_value(old) >= signed_value(operand) { old } else { operand },
        AmoOp::MinU => if old <= operand { old } else { operand },
        AmoOp::MaxU => if old >= operand { old } else { operand },
    }
}

/// Whether `a <= b` as two's-complement words: a word with its sign bit set
/// is below every word without it, and words of equal sign compare as
/// unsigned.
pub fn signed_le(a: usize, b: usize) -> (r: bool)
    ensures
        r == (signed_value(a) <= signed_value(b)),
{
    let a_negative = a > isize::MAX as usize;
    let b_negative = b > isize::MAX as usize;
    if a_negative != b_negative {
        a_negative
    } else {
        a <= b
    }
}

/// Computes the new memory word of a read-modify-write from the old word and
/// the register operand. `Min` and `Max` compare as two's-complement signed
/// words, `MinU` and `MaxU` as unsigned words.
pub fn apply_amo(op: AmoOp, old: usize, operand: usize) -> (r: usize)
    ensures
        r == amo_value(op, old, operand),
{
    match op {
        AmoOp::Swap => operand,
        AmoOp::Add => old.wrapping_add(operand),
        AmoOp::Xor => old ^ operand,
        AmoOp::And => old & operand,
        AmoOp::Or => old | operand,
        AmoOp::Min => {
            if signed_le(old, operand) {
                old
            } else {
                operand
            }
        },
        AmoOp::Max => {
            if signed_le(operand, old) {
                old
            } else {
                operand
            }
        },
        AmoOp::MinU => {
            if old <= operand {
                old
            } else {
                operand
            }
        },
        AmoOp::MaxU => {
            if old >= operand {
                old
            } else {
                operand
            }
        },
    }
}

} // verus!
