pub mod chip_emulator;
pub mod render;
pub mod state;
pub mod traits;

pub use chip_emulator::ChipEmulator;
pub use traits::{Chip, ChipInstructions, Opcode};
