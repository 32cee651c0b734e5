pub use crate::chip8::chip8_emulator::Chip8Clock;
