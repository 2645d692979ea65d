//! Properties of the emulation that relate several steps or hold for whole
//! classes of instructions.
use vstd::prelude::*;
use crate::amo::{amo_value, signed_value, wrapping_sum};
use crate::decode::AmoOp;
use crate::decode::{is_atomic_spec, operation_spec, rd_of, rs1_of, rs2_of, selector_of};
use crate::emulate::step;
use crate::fetch::splice_words;
use crate::memory::{lemma_word_at_store_word, word_at};

verus! {

/// An add leaves the wrapped sum of the old word and the `rs2` operand in
/// memory, and the old word in `rd`.
pub proof fn lemma_add_result(insn: u32, regs: Seq<usize>, m: Map<int, u8>, reserved: Option<usize>)
    requires
        is_atomic_spec(insn),
        selector_of(insn) == 0,
        regs.len() == 32,
    ensures
        step(insn, regs, m, reserved) is Some,
        ({
            let (regs2, m2, _) = step(insn, regs, m, reserved).unwrap();
            let addr = regs[rs1_of(insn) as int];
            let v = word_at(m, addr);
            &&& word_at(m2, addr) == wrapping_sum(v, regs[rs2_of(insn) as int])
            &&& regs2[rd_of(insn) as int] == v
        }),
{
    let addr = regs[rs1_of(insn) as int];
    let v = word_at(m, addr);
    lemma_word_at_store_word(m, addr, wrapping_sum(v, regs[rs2_of(insn) as int]));
    assert(rd_of(insn) < 32) by (bit_vector);
}

/// When exactly one of the two words has its sign bit set, the signed and
/// unsigned orders disagree: the signed minimum and the unsigned maximum keep
/// the negative word, the signed maximum and the unsigned minimum the other.
pub proof fn lemma_signed_unsigned_differ(negative: usize, other: usize)
    requires
        negative > isize::MAX,
        other <= isize::MAX,
    ensures
        signed_value(negative) < 0 <= signed_value(other),
        amo_value(AmoOp::Min, negative, other) == negative,
        amo_value(AmoOp::Max, negative, other) == other,
        amo_value(AmoOp::MinU, negative, other) == other,
        amo_value(AmoOp::MaxU, negative, other) == negative,
{
}

/// A load-reserved followed by a store-conditional to the same address
/// succeeds: `rd` of the store-conditional becomes 0, memory holds the stored
/// value and no reservation is left.
pub proof fn lemma_lr_then_sc(
    lr: u32,
    sc: u32,
    regs: Seq<usize>,
    m: Map<int, u8>,
    reserved: Option<usize>,
)
    requires
        is_atomic_spec(lr),
        is_atomic_spec(sc),
        selector_of(lr) == 0b00010,
        selector_of(sc) == 0b00011,
        regs.len() == 32,
        step(lr, regs, m, reserved).unwrap().0[rs1_of(sc) as int] == regs[rs1_of(lr) as int],
    ensures
        ({
            let (regs1, m1, res1) = step(lr, regs, m, reserved).unwrap();
            let (regs2, m2, res2) = step(sc, regs1, m1, res1).unwrap();
            let addr = regs[rs1_of(lr) as int];
            &&& step(sc, regs1, m1, res1) is Some
            &&& regs2[rd_of(sc) as int] == 0
            &&& word_at(m2, addr) == regs1[rs2_of(sc) as int]
            &&& res2 is None
        }),
{
    let (regs1, m1, res1) = step(lr, regs, m, reserved).unwrap();
    let addr = regs[rs1_of(lr) as int];
    lemma_word_at_store_word(m1, addr, regs1[rs2_of(sc) as int]);
    assert(rd_of(sc) < 32) by (bit_vector);
    assert(rd_of(lr) < 32) by (bit_vector);
}

/// A store-conditional without a reservation fails: `rd` becomes 1 and memory
/// is unchanged.
pub proof fn lemma_sc_without_reservation(insn: u32, regs: Seq<usize>, m: Map<int, u8>)
    requires
        is_atomic_spec(insn),
        selector_of(insn) == 0b00011,
    ensures
        step(insn, regs, m, None) == Some((regs.update(rd_of(insn) as int, 1), m, None::<usize>)),
{
}

/// A store-conditional to an address other than the reserved one fails and
/// drops the reservation, so a following store-conditional fails as well,
/// whatever its address.
pub proof fn lemma_sc_mismatch_clears(
    sc: u32,
    next: u32,
    regs: Seq<usize>,
    m: Map<int, u8>,
    addr: usize,
)
    requires
        is_atomic_spec(sc),
        is_atomic_spec(next),
        selector_of(sc) == 0b00011,
        selector_of(next) == 0b00011,
        regs[rs1_of(sc) as int] != addr,
    ensures
        step(sc, regs, m, Some(addr)) == Some(
            (regs.update(rd_of(sc) as int, 1), m, None::<usize>),
        ),
        ({
            let (regs1, m1, res1) = step(sc, regs, m, Some(addr)).unwrap();
            step(next, regs1, m1, res1) == Some(
                (regs1.update(rd_of(next) as int, 1), m, None::<usize>),
            )
        }),
{
}

/// An instruction whose selector names no operation is not emulated.
pub proof fn lemma_unknown_selector(insn: u32, regs: Seq<usize>, m: Map<int, u8>, reserved: Option<
    usize,
>)
    requires
        operation_spec(selector_of(insn)) is None,
    ensures
        step(insn, regs, m, reserved) is None,
{
}

/// Splicing the instruction that starts halfway into the aligned word `lo`
/// and ends in the next aligned word `hi` gives back the whole instruction.
pub proof fn lemma_misaligned_fetch(insn: u32, lo: u32, hi: u32)
    requires
        lo >> 16u32 == insn & 0xffff,
        hi & 0xffff == insn >> 16u32,
    ensures
        splice_words(lo, hi, 2) == insn,
{
    assert(splice_words(lo, hi, 2) == insn) by (bit_vector)
        requires
            lo >> 16u32 == insn & 0xffff,
            hi & 0xffff == insn >> 16u32,
    ;
}

} // verus!
