//! Software emulation of the atomic-memory instruction class (load-reserved,
//! store-conditional and the read-modify-write operations) for cores that
//! trap on these opcodes.
//!
//! The trap handler hands the faulting instruction (or its program counter),
//! the saved register frame, the reservation state of the execution context
//! and access to memory to [`emulate_instruction`] or [`atomic_emulation`],
//! and resumes after the instruction when they report it handled.
pub mod amo;
pub mod decode;
pub mod emulate;
pub mod fetch;
pub mod laws;
pub mod memory;

pub use decode::{is_atomic_instruction, AmoOp, Operation};
pub use emulate::{atomic_emulation, emulate_instruction, ReservationState, PLATFORM_REGISTER_LEN};
pub use memory::{ByteMemory, Memory};
