//! Classification of instruction words and extraction of their fields.
use vstd::prelude::*;

verus! {

/// Major opcode (bits 0..=6) shared by every instruction of the atomic class.
pub const ATOMIC_OPCODE: u32 = 0b0101111;

/// Mask of a 5-bit field (register index or operation selector).
pub const FIELD_MASK: u32 = 0b11111;

/// Major opcode, bits 0..=6.
pub open spec fn opcode_of(insn: u32) -> u32 {
    insn & 0x7f
}

/// The instruction belongs to the atomic class.
pub open spec fn is_atomic_spec(insn: u32) -> bool {
    opcode_of(insn) == ATOMIC_OPCODE
}

/// Operation selector, bits 27..=31.
pub open spec fn selector_of(insn: u32) -> u32 {
    insn >> 27
}

/// Destination register index, bits 7..=11.
pub open spec fn rd_of(insn: u32) -> u32 {
    (insn >> 7) & FIELD_MASK
}

/// First source register index (the address), bits 15..=19.
pub open spec fn rs1_of(insn: u32) -> u32 {
    (insn >> 15) & FIELD_MASK
}

/// Second source register index (the operand), bits 20..=24.
pub open spec fn rs2_of(insn: u32) -> u32 {
    (insn >> 20) & FIELD_MASK
}

/// Whether `insn` belongs to the atomic instruction class.
pub fn is_atomic_instruction(insn: u32) -> (r: bool)
    ensures
        r == is_atomic_spec(insn),
{
    (insn & 0x7f) == ATOMIC_OPCODE
}

/// The register fields of an instruction word.
#[derive(Clone, Copy, Debug, PartialEq, Eq)]
pub struct Fields {
    pub selector: u32,
    pub rd: usize,
    pub rs1: usize,
    pub rs2: usize,
}

/// Splits `insn` into its operation selector and register indices.
pub fn decode_fields(insn: u32) -> (f: Fields)
    ensures
        f.selector == selector_of(insn),
        f.rd == rd_of(insn),
        f.rs1 == rs1_of(insn),
        f.rs2 == rs2_of(insn),
        f.selector < 32,
        f.rd < 32,
        f.rs1 < 32,
        f.rs2 < 32,
{
    proof {
        assert(insn >> 27 < 32) by (bit_vector);
        assert((insn >> 7) & FIELD_MASK < 32) by (bit_vector);
        assert((insn >> 15) & FIELD_MASK < 32) by (bit_vector);
        assert((insn >> 20) & FIELD_MASK < 32) by (bit_vector);
    }
    Fields {
        selector: insn >> 27,
        rd: ((insn >> 7) & FIELD_MASK) as usize,
        rs1: ((insn >> 15) & FIELD_MASK) as usize,
        rs2: ((insn >> 20) & FIELD_MASK) as usize,
    }
}

/// The binary operation of a read-modify-write instruction.
#[derive(Clone, Copy, Debug, PartialEq, Eq)]
pub enum AmoOp {
    Swap,
    Add,
    Xor,
    And,
    Or,
    Min,
    Max,
    MinU,
    MaxU,
}

/// What an instruction of the atomic class asks for.
#[derive(Clone, Copy, Debug, PartialEq, Eq)]
pub enum Operation {
    LoadReserved,
    StoreConditional,
    Amo(AmoOp),
}

/// The operation a selector names, if any.
pub open spec fn operation_spec(selector: u32) -> Option<Operation> {
    if selector == 0b00010 {
        Some(Operation::LoadReserved)
    } else if selector == 0b00011 {
        Some(Operation::StoreConditional)
    } else if selector == 0b00001 {
        Some(Operation::Amo(AmoOp::Swap))
    } else if selector == 0b00000 {
        Some(Operation::Amo(AmoOp::Add))
    } else if selector == 0b00100 {
        Some(Operation::Amo(AmoOp::Xor))
    } else if selector == 0b01100 {
        Some(Operation::Amo(AmoOp::And))
    } else if selector == 0b01000 {
        Some(Operation::Amo(AmoOp::Or))
    } else if selector == 0b10000 {
        Some(Operation::Amo(AmoOp::Min))
    } else if selector == 0b10100 {
        Some(Operation::Amo(AmoOp::Max))
    } else if selector == 0b11000 {
        Some(Operation::Amo(AmoOp::MinU))
    } else if selector == 0b11100 {
        Some(Operation::Amo(AmoOp::MaxU))
    } else {
        None
    }
}

/// Maps an operation selector to the operation it names; `None` for the
/// selectors that name no operation.
pub fn decode_operation(selector: u32) -> (r: Option<Operation>)
    ensures
        r == operation_spec(selector),
{
    match selector {
        0b00010 => Some(Operation::LoadReserved),
        0b00011 => Some(Operation::StoreConditional),
        0b00001 => Some(Operation::Amo(AmoOp::Swap)),
        0b00000 => Some(Operation::Amo(AmoOp::Add)),
        0b00100 => Some(Operation::Amo(AmoOp::Xor)),
        0b01100 => Some(Operation::Amo(AmoOp::And)),
        0b01000 => Some(Operation::Amo(AmoOp::Or)),
        0b10000 => Some(Operation::Amo(AmoOp::Min)),
        0b10100 => Some(Operation::Amo(AmoOp::Max)),
        0b11000 => Some(Operation::Amo(AmoOp::MinU)),
        0b11100 => Some(Operation::Amo(AmoOp::MaxU)),
        _ => None,
    }
}

} // verus!
