pub mod super_chip_emulator;
pub mod storage;
pub mod super_chip_opcode;

pub use super_chip_emulator::SuperChipEmulator;
pub use super_chip_opcode::SuperChipOpcode;
