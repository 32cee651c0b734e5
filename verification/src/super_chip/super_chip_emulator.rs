use vstd::prelude::*;

use crate::emulator::state::zeros;
use crate::emulator::traits::{Chip, ChipInstructions};
use crate::super_chip::super_chip_opcode::SuperChipOpcode;

verus! {

/// Pixels of the 128 by 64 high resolution screen.
pub const SUPER_CHIP_LARGE_SCREEN_SIZE: usize = 8192;

/// The sprites of the large hexadecimal digits `0`..`F`, ten rows of 8 pixels each.
pub const BIG_FONT: [u8; 160] = [
    0xFF, 0xFF, 0xC3, 0xC3, 0xC3, 0xC3, 0xC3, 0xC3, 0xFF, 0xFF,  //0
    0x18, 0x78, 0x78, 0x18, 0x18, 0x18, 0x18, 0x18, 0xFF, 0xFF,  //1
    0xFF, 0xFF, 0x03, 0x03, 0xFF, 0xFF, 0xC0, 0xC0, 0xFF, 0xFF,  //2
    0xFF, 0xFF, 0x03, 0x03, 0xFF, 0xFF, 0x03, 0x03, 0xFF, 0xFF,  //3
    0xC3, 0xC3, 0xC3, 0xC3, 0xFF, 0xFF, 0x03, 0x03, 0x03, 0x03,  //4
    0xFF, 0xFF, 0xC0, 0xC0, 0xFF, 0xFF, 0x03, 0x03, 0xFF, 0xFF,  //5
    0xFF, 0xFF, 0xC0, 0xC0, 0xFF, 0xFF, 0xC3, 0xC3, 0xFF, 0xFF,  //6
    0xFF, 0xFF, 0x03, 0x03, 0x06, 0x0C, 0x18, 0x18, 0x18, 0x18,  //7
    0xFF, 0xFF, 0xC3, 0xC3, 0xFF, 0xFF, 0xC3, 0xC3, 0xFF, 0xFF,  //8
    0xFF, 0xFF, 0xC3, 0xC3, 0xFF, 0xFF, 0x03, 0x03, 0xFF, 0xFF,  //9
    0x7E, 0xFF, 0xC3, 0xC3, 0xC3, 0xFF, 0xFF, 0xC3, 0xC3, 0xC3,  //A
    0xFC, 0xFC, 0xC3, 0xC3, 0xFC, 0xFC, 0xC3, 0xC3, 0xFC, 0xFC,  //B
    0x3C, 0xFF, 0xC3, 0xC0, 0xC0, 0xC0, 0xC0, 0xC3, 0xFF, 0x3C,  //C
    0xFC, 0xFE, 0xC3, 0xC3, 0xC3, 0xC3, 0xC3, 0xC3, 0xFE, 0xFC,  //D
    0xFF, 0xFF, 0xC0, 0xC0, 0xFF, 0xFF, 0xC0, 0xC0, 0xFF, 0xFF,  //E
    0xFF, 0xFF, 0xC0, 0xC0, 0xFF, 0xFF, 0xC0, 0xC0, 0xC0, 0xC0,  //F
];

/// The SUPER-CHIP chip: a screen that switches between 64 by 32 and 128 by 64 pixels.
pub struct SuperChipEmulator {
    display: Vec<u8>,
}

impl Chip for SuperChipEmulator {
    closed spec fn display_view(&self) -> Seq<u8> {
        self.display@
    }

    open spec fn spec_resizable() -> bool {
        true
    }

    fn is_resizable() -> (resizable: bool) {
        true
    }

    fn get_display(&self) -> (display: &[u8]) {
        self.display.as_slice()
    }

    fn get_display_mut(&mut self) -> (display: &mut [u8]) {
        self.display.as_mut_slice()
    }

    fn set_pixel(&mut self, idx: usize, value: u8) {
        self.display.set(idx, value);
    }

    fn resize_screen(&mut self, size: usize) {
        self.display = vec![0u8; size];
        assert(self.display@ =~= zeros(size as nat));
    }

    fn new() -> (chip: Self) {
        let chip = Self { display: vec![0u8; 2048] };
        assert(chip.display@ =~= zeros(2048));
        chip
    }
}


impl ChipInstructions for SuperChipEmulator {
    type Opcode = SuperChipOpcode;
}

} // verus!
