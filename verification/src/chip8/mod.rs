pub mod chip8_emulator;
pub mod chip8_emulator_helpers;
pub mod chip8_opcode;
