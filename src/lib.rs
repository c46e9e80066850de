//! An interpreter core for the CHIP-8 instruction set: memory, registers, call
//! stack, timers, a monochrome display and a key latch, driven one instruction
//! at a time by a host.
pub mod laws;
pub mod machine;
pub mod model;
pub mod opcode;

pub use machine::Machine;
pub use model::{
    Chip8Error, StepOutcome, DEFAULT_STACK_CAPACITY, DISPLAY_HEIGHT, DISPLAY_SIZE, DISPLAY_WIDTH,
    FLAG_REGISTER, FONT_BASE_ADDR, FONT_HEIGHT, KEY_COUNT, MEMORY_SIZE, PROGRAM_BASE_ADDR,
    REGISTER_COUNT, TIMER_CADENCE_MS,
};
pub use opcode::{build_opcode, extract_address, extract_lower, extract_upper, next};
