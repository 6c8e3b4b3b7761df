//! A CHIP-8 virtual machine: memory with the font table, a monochrome
//! framebuffer, and an interpreter whose every opcode is specified over an
//! abstract machine state.

pub mod emulator;
pub mod error;
pub mod instruction;
pub mod laws;
pub mod ram;
pub mod screen;
pub mod state;

pub use emulator::Emulator;
pub use error::Chip8Error;
pub use instruction::{decode_opcode, Instruction};
pub use ram::{Ram, FONTSET, RAM_SIZE, START_ADDRESS};
pub use screen::{Screen, SCREEN_HEIGHT, SCREEN_SIZE, SCREEN_WIDTH};
