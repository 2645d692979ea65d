use amo_emulation::amo::{apply_amo, signed_le};
use amo_emulation::decode::{decode_fields, decode_operation};
use amo_emulation::fetch::{fetch_instruction, splice_instruction};
use amo_emulation::{
    atomic_emulation, emulate_instruction, is_atomic_instruction, AmoOp, ByteMemory, Memory,
    Operation, ReservationState, PLATFORM_REGISTER_LEN,
};

const BASE: usize = 0x1000;
const WORD: usize = core::mem::size_of::<usize>();

const LR: u32 = 0b00010;
const SC: u32 = 0b00011;
const SWAP: u32 = 0b00001;
const ADD: u32 = 0b00000;
const XOR: u32 = 0b00100;
const AND: u32 = 0b01100;
const OR: u32 = 0b01000;
const MIN: u32 = 0b10000;
const MAX: u32 = 0b10100;
const MINU: u32 = 0b11000;
const MAXU: u32 = 0b11100;
const KNOWN: [u32; 11] = [LR, SC, SWAP, ADD, XOR, AND, OR, MIN, MAX, MINU, MAXU];

fn encode(selector: u32, rd: u32, rs1: u32, rs2: u32) -> u32 {
    (selector << 27) | (rs2 << 20) | (rs1 << 15) | (3 << 12) | (rd << 7) | 0b0101111
}

fn memory() -> ByteMemory {
    ByteMemory::new(BASE, vec![0u8; 64])
}

fn store(mem: &mut ByteMemory, addr: usize, value: usize) {
    mem.write_word(addr, value);
}

/// Runs one read-modify-write with `x10` holding the address, `x11` the
/// operand and `x5` the destination; returns (rd, new memory word).
fn run_amo(selector: u32, old: usize, operand: usize) -> (usize, usize) {
    let mut mem = memory();
    let addr = BASE + 2 * WORD;
    store(&mut mem, addr, old);
    let mut frame = [0usize; PLATFORM_REGISTER_LEN];
    frame[10] = addr;
    frame[11] = operand;
    let mut res = ReservationState::new();
    assert!(emulate_instruction(encode(selector, 5, 10, 11), &mut frame, &mut res, &mut mem));
    assert_eq!(frame[10], addr);
    assert_eq!(frame[11], operand);
    assert_eq!(res.reserved_address(), None);
    (frame[5], mem.read_word(addr))
}

#[test]
fn is_atomic_accepts_the_opcode() {
    assert!(is_atomic_instruction(0b0101111));
    assert!(is_atomic_instruction(encode(ADD, 1, 2, 3)));
    assert!(is_atomic_instruction(0xffff_ff80 | 0b0101111));
}

#[test]
fn is_atomic_rejects_other_opcodes() {
    for low in 0u32..128 {
        for high in [0u32, 0x8000_0000, 0xffff_ff80, 0x1234_5680] {
            let insn = high | low;
            assert_eq!(is_atomic_instruction(insn), low == 0b0101111);
        }
    }
    assert!(!is_atomic_instruction(0x0000_0033));
}

#[test]
fn fields_are_extracted() {
    let f = decode_fields(encode(MAXU, 31, 17, 9));
    assert_eq!(f.selector, MAXU);
    assert_eq!(f.rd, 31);
    assert_eq!(f.rs1, 17);
    assert_eq!(f.rs2, 9);
}

#[test]
fn selectors_decode() {
    assert_eq!(decode_operation(LR), Some(Operation::LoadReserved));
    assert_eq!(decode_operation(SC), Some(Operation::StoreConditional));
    assert_eq!(decode_operation(ADD), Some(Operation::Amo(AmoOp::Add)));
    assert_eq!(decode_operation(MAXU), Some(Operation::Amo(AmoOp::MaxU)));
    assert_eq!(decode_operation(0b00101), None);
}

#[test]
fn add_stores_sum_and_returns_old() {
    assert_eq!(run_amo(ADD, 40, 2), (40, 42));
}

#[test]
fn add_wraps() {
    assert_eq!(run_amo(ADD, usize::MAX, 2), (usize::MAX, 1));
}

#[test]
fn swap_xor_and_or() {
    assert_eq!(run_amo(SWAP, 7, 9), (7, 9));
    assert_eq!(run_amo(XOR, 0b1100, 0b1010), (0b1100, 0b0110));
    assert_eq!(run_amo(AND, 0b1100, 0b1010), (0b1100, 0b1000));
    assert_eq!(run_amo(OR, 0b1100, 0b1010), (0b1100, 0b1110));
}

#[test]
fn signed_min_max() {
    let minus_five = (-5isize) as usize;
    assert_eq!(run_amo(MIN, minus_five, 3), (minus_five, minus_five));
    assert_eq!(run_amo(MAX, minus_five, 3), (minus_five, 3));
}

#[test]
fn unsigned_min_max_differ_from_signed() {
    let all_ones = usize::MAX;
    assert_eq!(run_amo(MINU, all_ones, 1), (all_ones, 1));
    assert_eq!(run_amo(MIN, all_ones, 1), (all_ones, all_ones));
    assert_eq!(run_amo(MAXU, all_ones, 1), (all_ones, all_ones));
    assert_eq!(run_amo(MAX, all_ones, 1), (all_ones, 1));
}

#[test]
fn apply_amo_values() {
    assert_eq!(apply_amo(AmoOp::Add, 3, 4), 7);
    assert_eq!(apply_amo(AmoOp::Swap, 3, 4), 4);
    assert_eq!(apply_amo(AmoOp::Min, (-1isize) as usize, 0), (-1isize) as usize);
    assert_eq!(apply_amo(AmoOp::MinU, (-1isize) as usize, 0), 0);
}

#[test]
fn amo_operand_is_read_before_rd_is_written() {
    let mut mem = memory();
    let addr = BASE;
    store(&mut mem, addr, 100);
    let mut frame = [0usize; PLATFORM_REGISTER_LEN];
    frame[10] = addr;
    frame[7] = 5;
    let mut res = ReservationState::new();
    assert!(emulate_instruction(encode(ADD, 7, 10, 7), &mut frame, &mut res, &mut mem));
    assert_eq!(frame[7], 100);
    assert_eq!(mem.read_word(addr), 105);
}

#[test]
fn lr_then_sc_succeeds() {
    let mut mem = memory();
    let addr = BASE + WORD;
    store(&mut mem, addr, 11);
    let mut frame = [0usize; PLATFORM_REGISTER_LEN];
    frame[10] = addr;
    frame[11] = 77;
    frame[6] = 0xdead;
    let mut res = ReservationState::new();
    assert!(emulate_instruction(encode(LR, 5, 10, 0), &mut frame, &mut res, &mut mem));
    assert_eq!(frame[5], 11);
    assert_eq!(res.reserved_address(), Some(addr));
    assert!(emulate_instruction(encode(SC, 6, 10, 11), &mut frame, &mut res, &mut mem));
    assert_eq!(frame[6], 0);
    assert_eq!(mem.read_word(addr), 77);
    assert_eq!(res.reserved_address(), None);
}

#[test]
fn sc_without_reservation_fails() {
    let mut mem = memory();
    let addr = BASE;
    store(&mut mem, addr, 3);
    let before = mem.data.clone();
    let mut frame = [0usize; PLATFORM_REGISTER_LEN];
    frame[10] = addr;
    frame[11] = 9;
    let mut res = ReservationState::new();
    assert!(emulate_instruction(encode(SC, 6, 10, 11), &mut frame, &mut res, &mut mem));
    assert_eq!(frame[6], 1);
    assert_eq!(mem.data, before);
    assert_eq!(res.reserved_address(), None);
}

#[test]
fn sc_to_other_address_fails_and_clears() {
    let mut mem = memory();
    let reserved = BASE;
    let other = BASE + WORD;
    store(&mut mem, reserved, 1);
    store(&mut mem, other, 2);
    let before = mem.data.clone();
    let mut frame = [0usize; PLATFORM_REGISTER_LEN];
    frame[10] = reserved;
    frame[12] = other;
    frame[11] = 9;
    let mut res = ReservationState::new();
    assert!(emulate_instruction(encode(LR, 5, 10, 0), &mut frame, &mut res, &mut mem));
    assert_eq!(res.reserved_address(), Some(reserved));
    assert!(emulate_instruction(encode(SC, 6, 12, 11), &mut frame, &mut res, &mut mem));
    assert_eq!(frame[6], 1);
    assert_eq!(res.reserved_address(), None);
    assert_eq!(mem.data, before);
    assert!(emulate_instruction(encode(SC, 7, 10, 11), &mut frame, &mut res, &mut mem));
    assert_eq!(frame[7], 1);
    assert_eq!(mem.data, before);
}

#[test]
fn lr_replaces_earlier_reservation() {
    let mut mem = memory();
    let mut frame = [0usize; PLATFORM_REGISTER_LEN];
    frame[10] = BASE;
    frame[12] = BASE + WORD;
    let mut res = ReservationState::new();
    assert!(emulate_instruction(encode(LR, 5, 10, 0), &mut frame, &mut res, &mut mem));
    assert!(emulate_instruction(encode(LR, 5, 12, 0), &mut frame, &mut res, &mut mem));
    assert_eq!(res.reserved_address(), Some(BASE + WORD));
}

#[test]
fn unknown_selector_changes_nothing() {
    for selector in 0u32..32 {
        if KNOWN.contains(&selector) {
            continue;
        }
        let mut mem = memory();
        store(&mut mem, BASE, 5);
        let before = mem.data.clone();
        let mut frame = [0usize; PLATFORM_REGISTER_LEN];
        frame[10] = BASE;
        frame[11] = 3;
        let frame_before = frame;
        let mut res = ReservationState { reserved: Some(BASE) };
        assert!(!emulate_instruction(encode(selector, 5, 10, 11), &mut frame, &mut res, &mut mem));
        assert_eq!(frame, frame_before);
        assert_eq!(mem.data, before);
        assert_eq!(res.reserved_address(), Some(BASE));
    }
}

#[test]
fn other_opcode_changes_nothing() {
    let mut mem = memory();
    let before = mem.data.clone();
    let mut frame = [0usize; PLATFORM_REGISTER_LEN];
    frame[10] = BASE;
    let frame_before = frame;
    let mut res = ReservationState::new();
    let insn = encode(ADD, 5, 10, 11) & !0x7f | 0x33;
    assert!(!emulate_instruction(insn, &mut frame, &mut res, &mut mem));
    assert_eq!(frame, frame_before);
    assert_eq!(mem.data, before);
    assert_eq!(res.reserved_address(), None);
}

#[test]
fn splice_takes_bytes_from_both_words() {
    assert_eq!(splice_instruction(0x4433_2211, 0x8877_6655, 2), 0x6655_4433);
    assert_eq!(splice_instruction(0x4433_2211, 0x8877_6655, 1), 0x5544_3322);
    assert_eq!(splice_instruction(0x4433_2211, 0x8877_6655, 0), 0x4433_2211);
}

#[test]
fn misaligned_fetch_matches_direct_word() {
    let insn = encode(ADD, 5, 10, 11);
    let mut data = vec![0u8; 64];
    data[0] = 0x13;
    data[1] = 0x00;
    data[2..6].copy_from_slice(&insn.to_le_bytes());
    data[6] = 0x01;
    data[7] = 0x00;
    let mem = ByteMemory::new(BASE, data);
    assert_eq!(fetch_instruction(&mem, BASE + 2), insn);
    assert_eq!(mem.read_u32(BASE), u32::from_le_bytes([0x13, 0x00, insn as u8, (insn >> 8) as u8]));
}

#[test]
fn aligned_fetch_reads_word() {
    let insn = encode(SWAP, 1, 2, 3);
    let mut data = vec![0u8; 64];
    data[8..12].copy_from_slice(&insn.to_le_bytes());
    let mem = ByteMemory::new(BASE, data);
    assert_eq!(fetch_instruction(&mem, BASE + 8), insn);
}

#[test]
fn entry_points_agree_on_misaligned_instruction() {
    let insn = encode(ADD, 5, 10, 11);
    let target = BASE + 4 * WORD;
    let mut data = vec![0u8; 64];
    data[2..6].copy_from_slice(&insn.to_le_bytes());
    let mut by_pc = ByteMemory::new(BASE, data.clone());
    let mut by_word = ByteMemory::new(BASE, data);
    store(&mut by_pc, target, 30);
    store(&mut by_word, target, 30);
    let mut frame_pc = [0usize; PLATFORM_REGISTER_LEN];
    frame_pc[10] = target;
    frame_pc[11] = 12;
    let mut frame_word = frame_pc;
    let mut res_pc = ReservationState::new();
    let mut res_word = ReservationState::new();
    assert!(atomic_emulation(BASE + 2, &mut frame_pc, &mut res_pc, &mut by_pc));
    assert!(emulate_instruction(insn, &mut frame_word, &mut res_word, &mut by_word));
    assert_eq!(frame_pc, frame_word);
    assert_eq!(by_pc.data, by_word.data);
    assert_eq!(frame_pc[5], 30);
    assert_eq!(by_pc.read_word(target), 42);
}

#[test]
fn memory_is_little_endian() {
    let mut mem = memory();
    mem.write_word(BASE + WORD, 0x0807_0605_0403_0201u64 as usize);
    assert_eq!(mem.data[WORD], 0x01);
    assert_eq!(mem.data[WORD + 1], 0x02);
    assert_eq!(mem.read_u32(BASE + WORD), 0x0403_0201);
    assert_eq!(mem.data[0], 0);
    assert_eq!(mem.data[2 * WORD], 0);
}

#[test]
fn signed_le_orders_twos_complement() {
    let minus_five = (-5isize) as usize;
    assert!(signed_le(minus_five, 3));
    assert!(!signed_le(3, minus_five));
    assert!(signed_le(usize::MAX - 5, usize::MAX - 4));
    assert!(signed_le(isize::MIN as usize, isize::MAX as usize));
    assert!(signed_le(7, 7));
    assert!(!signed_le(8, 7));
}
