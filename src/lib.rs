pub mod laws;
pub mod machine;
pub mod opcode;

pub use machine::{Chip8, Chip8Error};
pub use opcode::{decode, Instruction};
