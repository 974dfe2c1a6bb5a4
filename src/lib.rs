//! An interpreter for a small 8-bit virtual machine: byte-addressed memory
//! seeded with a hexadecimal glyph font, an instruction decoder, and an
//! execute engine over registers, timers, a call stack and a 64x32 monochrome
//! framebuffer.
pub mod cpu;
pub mod instruction;
pub mod laws;
pub mod machine;
pub mod memory;

pub use cpu::{CpuState, ExecError, CPU, DISPLAY_HEIGHT, DISPLAY_WIDTH, KEY_COUNT, REGISTER_COUNT};
pub use instruction::{decode_word, Instruction};
pub use machine::Chip8;
pub use memory::{Memory, MEMORY_SIZE, MEMORY_START_OFFSET};
