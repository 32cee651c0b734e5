use vstd::prelude::*;

use crate::chip8::chip8_opcode::UnkownOpCodeErr;
use crate::emulator::chip_emulator::ChipEmulator;
use crate::emulator::state::{EmuState, state_wf, zeros};

verus! {

/// A chip: the screen hardware that an emulator drives.
pub trait Chip: Sized {
    /// The pixels of the screen, row by row.
    spec fn display_view(&self) -> Seq<u8>;

    /// Whether the screen resolution can be changed.
    spec fn spec_resizable() -> bool;

    fn is_resizable() -> (resizable: bool)
        ensures
            resizable == Self::spec_resizable(),
    ;

    fn get_display(&self) -> (display: &[u8])
        ensures
            display@ == self.display_view(),
    ;

    fn get_display_mut(&mut self) -> (display: &mut [u8])
        ensures
            display@ == old(self).display_view(),
            final(display)@ == final(self).display_view(),
    ;

    /// Sets one pixel.
    fn set_pixel(&mut self, idx: usize, value: u8)
        requires
            idx < old(self).display_view().len(),
        ensures
            final(self).display_view() == old(self).display_view().update(idx as int, value),
    ;

    /// Gives the screen `size` pixels, all blank.
    fn resize_screen(&mut self, size: usize)
        requires
            Self::spec_resizable(),
        ensures
            final(self).display_view() == zeros(size as nat),
    ;

    /// A chip with a blank low resolution (64 by 32) screen.
    fn new() -> (chip: Self)
        ensures
            chip.display_view() == zeros(2048),
    ;
}

/// A chip together with the instruction set that runs on it.
pub trait ChipInstructions: Chip {
    type Opcode: Opcode;
}

/// An instruction set: decoding of 16 bit opcodes and their effect on an emulator.
pub trait Opcode: Sized {
    spec fn spec_decode(opcode: u16) -> Result<Self, UnkownOpCodeErr>;

    /// The instruction run in place of one that does not decode.
    spec fn spec_useless() -> Self;

    /// The instruction runs without a fault on the state `s`.
    spec fn spec_can_execute(self, s: EmuState) -> bool;

    /// The state after the instruction, and whether the program counter then moves on.
    spec fn spec_execute(self, s: EmuState, random: u8) -> (EmuState, bool);

    fn decode(opcode: u16) -> (op: Result<Self, UnkownOpCodeErr>)
        ensures
            op == Self::spec_decode(opcode),
    ;

    fn useless_opcode() -> (op: Self)
        ensures
            op == Self::spec_useless(),
    ;

    /// The instruction draws on the entropy byte (the random instruction).
    spec fn spec_needs_entropy(&self) -> bool;

    /// Whether the instruction draws on the entropy byte.
    fn needs_entropy(&self) -> (needs: bool)
        ensures
            needs == self.spec_needs_entropy(),
    ;

    fn can_execute<C: Chip>(&self, emu: &ChipEmulator<C>) -> (ok: bool)
        ensures
            ok == self.spec_can_execute(emu@),
    ;

    /// Runs the instruction; `random` is the entropy byte that the random instruction uses.
    /// Returns whether the program counter should move on to the next instruction.
    fn execute_opcode<C: Chip>(self, emu: &mut ChipEmulator<C>, random: u8) -> (increase: bool)
        requires
            self.spec_can_execute(old(emu)@),
        ensures
            (final(emu)@, increase) == self.spec_execute(old(emu)@, random),
    ;

    /// An instruction that does not draw on the entropy byte has the same effect whatever
    /// byte it is given.
    proof fn lemma_entropy_unused(self, s: EmuState, random: u8)
        requires
            !self.spec_needs_entropy(),
        ensures
            self.spec_execute(s, random) == self.spec_execute(s, 0),
    ;

    /// Running an instruction keeps the shape of the state, and an instruction after which the
    /// program counter moves on leaves it at most one instruction further.
    proof fn lemma_execute_shape(self, s: EmuState, random: u8)
        requires
            state_wf(s),
            self.spec_can_execute(s),
        ensures
            state_wf(self.spec_execute(s, random).0),
            self.spec_execute(s, random).0.resizable == s.resizable,
            self.spec_execute(s, random).1 && self.spec_execute(s, random).0.has_memory_loaded
                ==> self.spec_execute(s, random).0.program_counter <= s.program_counter + 2,
    ;
}

} // verus!
