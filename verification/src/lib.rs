pub mod chip8;
pub mod emulator;
pub mod laws;
pub mod opcode_laws;
pub mod super_chip;

pub use chip8::chip8_opcode::{Chip8Opcode, UnkownOpCodeErr};
pub use emulator::ChipEmulator;

use vstd::prelude::*;

verus! {

/// Width in pixels of the low resolution screen.
pub const SCREEN_WIDTH: u8 = 64;

/// Height in pixels of the low resolution screen.
pub const SCREEN_HEIGHT: u8 = 32;

} // verus!
