//! A minimal byte-code machine: a fixed-size memory holding an encoded
//! instruction stream, and a single-accumulator processor that runs the
//! fetch-decode-execute loop over it.
pub mod opcode;

pub use opcode::Opcode;
pub mod memory;

pub use memory::{Memory, MemoryError, MEM_SIZE};
pub mod cpu;

pub use cpu::CPU;
pub mod hex;

pub use hex::parse_hex_byte;
