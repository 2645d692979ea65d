//! The emulation driver: decodes an instruction of the atomic class and
//! performs its effect on the register frame, memory and reservation.
use vstd::prelude::*;
use crate::amo::{amo_value, apply_amo};
use crate::decode::{
    decode_fields, decode_operation, is_atomic_instruction, is_atomic_spec, operation_spec,
    rd_of, rs1_of, rs2_of, selector_of, Operation,
};
use crate::fetch::{fetch_instruction, fetchable};
use crate::memory::{Memory, store_word, u32_at, word_accessible, word_at};

verus! {

/// Number of registers in a saved register frame.
pub const PLATFORM_REGISTER_LEN: usize = 32;

/// The address reserved by the last load-reserved that no store-conditional
/// has consumed since, if any. One per execution context.
#[derive(Clone, Copy, Debug, PartialEq, Eq)]
pub struct ReservationState {
    pub reserved: Option<usize>,
}

impl ReservationState {
    /// The state with no reservation.
    pub fn new() -> (r: ReservationState)
        ensures
            r.reserved == None::<usize>,
    {
        ReservationState { reserved: None }
    }

    /// The reserved address, if any.
    pub fn reserved_address(&self) -> (r: Option<usize>)
        ensures
            r == self.reserved,
    {
        self.reserved
    }
}

/// Registers, memory bytes and reservation after executing `insn`, or `None`
/// when `insn` is not an instruction this core emulates.
pub open spec fn step(insn: u32, regs: Seq<usize>, m: Map<int, u8>, reserved: Option<usize>) -> Option<
    (Seq<usize>, Map<int, u8>, Option<usize>),
> {
    let rd = rd_of(insn) as int;
    let addr = regs[rs1_of(insn) as int];
    let operand = regs[rs2_of(insn) as int];
    if !is_atomic_spec(insn) {
        None
    } else {
        match operation_spec(selector_of(insn)) {
            None => None,
            Some(Operation::LoadReserved) => Some(
                (regs.update(rd, word_at(m, addr)), m, Some(addr)),
            ),
            Some(Operation::StoreConditional) => if reserved == Some(addr) {
                Some((regs.update(rd, 0), store_word(m, addr, operand), None))
            } else {
                Some((regs.update(rd, 1), m, None))
            },
            Some(Operation::Amo(op)) => Some(
                (
                    regs.update(rd, word_at(m, addr)),
                    store_word(m, addr, amo_value(op, word_at(m, addr), operand)),
                    reserved,
                ),
            ),
        }
    }
}

/// Every memory access that executing `insn` makes is to a valid, aligned word.
pub open spec fn accesses_valid(insn: u32, regs: Seq<usize>, m: Map<int, u8>, reserved: Option<
    usize,
>) -> bool {
    let addr = regs[rs1_of(insn) as int];
    is_atomic_spec(insn) ==> match operation_spec(selector_of(insn)) {
        None => true,
        Some(Operation::StoreConditional) => reserved == Some(addr) ==> word_accessible(m, addr),
        Some(_) => word_accessible(m, addr),
    }
}

/// The effect of emulating `insn`: when it is handled, frame, memory and
/// reservation are as `step` gives them; otherwise nothing changed.
pub open spec fn emulated<M: Memory>(
    insn: u32,
    handled: bool,
    frame_before: [usize; PLATFORM_REGISTER_LEN],
    frame_after: [usize; PLATFORM_REGISTER_LEN],
    res_before: ReservationState,
    res_after: ReservationState,
    mem_before: M,
    mem_after: M,
) -> bool {
    match step(insn, frame_before@, mem_before.bytes(), res_before.reserved) {
        None => {
            &&& !handled
            &&& frame_after == frame_before
            &&& res_after == res_before
            &&& mem_after == mem_before
        },
        Some((regs, bytes, reserved)) => {
            &&& handled
            &&& frame_after@ == regs
            &&& mem_after.bytes() == bytes
            &&& res_after.reserved == reserved
        },
    }
}

/// Emulates the instruction word `insn` against the register frame, the
/// reservation and memory. Returns whether the instruction was handled; when
/// it was not, nothing is changed.
pub fn emulate_instruction<M: Memory>(
    insn: u32,
    frame: &mut [usize; PLATFORM_REGISTER_LEN],
    reservation: &mut ReservationState,
    mem: &mut M,
) -> (handled: bool)
    requires
        accesses_valid(insn, old(frame)@, old(mem).bytes(), old(reservation).reserved),
    ensures
        emulated(
            insn,
            handled,
            *old(frame),
            *final(frame),
            *old(reservation),
            *final(reservation),
            *old(mem),
            *final(mem),
        ),
{
    if !is_atomic_instruction(insn) {
        return false;
    }
    let fields = decode_fields(insn);
    let op = match decode_operation(fields.selector) {
        Some(op) => op,
        None => return false,
    };
    let addr = frame[fields.rs1];
    match op {
        Operation::LoadReserved => {
            reservation.reserved = Some(addr);
            let value = mem.read_word(addr);
            frame[fields.rd] = value;
        },
        Operation::StoreConditional => {
            if reservation.reserved == Some(addr) {
                mem.write_word(addr, frame[fields.rs2]);
                frame[fields.rd] = 0;
            } else {
                frame[fields.rd] = 1;
            }
            reservation.reserved = None;
        },
        Operation::Amo(amo) => {
            let old = mem.read_word(addr);
            let operand = frame[fields.rs2];
            frame[fields.rd] = old;
            mem.write_word(addr, apply_amo(amo, old, operand));
        },
    }
    proof {
        let expected = step(insn, old(frame)@, old(mem).bytes(), old(reservation).reserved).unwrap();
        assert(frame@ =~= expected.0);
    }
    true
}

/// Emulates the instruction at program counter `pc`, which may be 2-byte
/// aligned only: the instruction is fetched from memory first. Returns
/// whether the instruction was handled; when it was not, nothing is changed.
pub fn atomic_emulation<M: Memory>(
    pc: usize,
    frame: &mut [usize; PLATFORM_REGISTER_LEN],
    reservation: &mut ReservationState,
    mem: &mut M,
) -> (handled: bool)
    requires
        fetchable(old(mem).bytes(), pc),
        accesses_valid(
            u32_at(old(mem).bytes(), pc as int),
            old(frame)@,
            old(mem).bytes(),
            old(reservation).reserved,
        ),
    ensures
        emulated(
            u32_at(old(mem).bytes(), pc as int),
            handled,
            *old(frame),
            *final(frame),
            *old(reservation),
            *final(reservation),
            *old(mem),
            *final(mem),
        ),
{
    let insn = fetch_instruction(&*mem, pc);
    emulate_instruction(insn, frame, reservation, mem)
}

} // verus!
