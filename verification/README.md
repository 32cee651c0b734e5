# purple8

A CHIP-8 and SUPER-CHIP emulator whose machine is verified with Verus.

- `src/` is the library. `emulator/` holds the machine (`ChipEmulator`), its mathematical
  model (`EmuState`), the `Chip`, `ChipInstructions` and `Opcode` traits and the conversion of
  the screen to RGBA pixels. `chip8/` holds the CHIP-8 chip, its instruction set and the timer
  clock; `super_chip/` the SUPER-CHIP chip, its instruction set and the save file format of its
  register storage. `laws.rs` states and proves properties that span several instructions.
  Each instruction's effect is a spec function over `EmuState`; decoding, executing and a whole
  fetch–decode–execute cycle are proved to match them, and to be free of faults whenever
  `cycle_is_defined` holds.
- `app/` is the desktop program: the egui window, key input, file loading, the save files on
  disk and the beep (rodio). After each cycle it performs the storage action that the emulator
  asks for, and after each frame the sound command.
- `tests/` runs the library on concrete programs.
