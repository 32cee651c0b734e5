use purple8::chip8::chip8_emulator::CHIP8_SCREEN_SIZE;
use purple8::emulator::{Chip, ChipEmulator};
use purple8::super_chip::super_chip_emulator::SUPER_CHIP_LARGE_SCREEN_SIZE;
use purple8::super_chip::SuperChipEmulator;

/// creates a `ChipEmulator` then loads the bytes into memory then runs `cycle_count` number of cycles
fn super_chip_test_helper(cycle_count: u8, bytes: &[u8]) -> ChipEmulator<SuperChipEmulator> {
    let mut chip = ChipEmulator::new(SuperChipEmulator::new());
    chip.load_bytes_into_memory(bytes);
    for _ in 0..cycle_count {
        chip.cycle();
    }
    chip
}

#[test]
fn test_raise_screen() {
    //raises the screen resolution
    let chip = super_chip_test_helper(1, &[0x0, 0xFF]);
    assert_eq!(SUPER_CHIP_LARGE_SCREEN_SIZE, chip.get_display().len())
}

#[test]
fn test_lower_screen() {
    //raises the screen resolution then lowers it
    let chip = super_chip_test_helper(2, &[0x0, 0xFF, 0x0, 0xFE]);
    assert_eq!(CHIP8_SCREEN_SIZE, chip.get_display().len())
}
