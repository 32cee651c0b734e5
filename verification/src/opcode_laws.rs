use vstd::arithmetic::div_mod::{lemma_fundamental_div_mod, lemma_fundamental_div_mod_converse};
use vstd::prelude::*;

use crate::chip8::chip8_emulator::FONT_SET;
use crate::chip8::chip8_opcode::{
    first_pressed, low_address, low_byte, nibble_n, nibble_t, nibble_x, nibble_y, spec_decode_chip8,
    spec_execute_chip8, sprite_bit, Chip8Opcode, UnkownOpCodeErr,
};
use crate::emulator::chip_emulator::{spec_cycle, spec_fetch, BIG_FONT_START};
use crate::emulator::state::{
    display_dims, display_size_ok, state_wf, EmuState, SoundCommand, MEMORY_SIZE,
};
use crate::super_chip::super_chip_emulator::BIG_FONT;
use crate::super_chip::super_chip_opcode::{
    large_bit, spec_decode_super, spec_execute_super, SuperChipOpcode,
};

verus! {

/// Registers `V0`..`VE` other than `x` hold the same values in `s` and `t`.
pub open spec fn others_kept(s: EmuState, t: EmuState, x: int) -> bool {
    forall|j: int| 0 <= j < 15 && j != x ==> t.v_registers[j] == s.v_registers[j]
}

/// The state after a CHIP-8 instruction.
pub open spec fn after8(op: Chip8Opcode, s: EmuState, random: u8) -> EmuState {
    spec_execute_chip8(op, s, random).0
}

/// Whether the program counter moves on after a CHIP-8 instruction.
pub open spec fn moves_on8(op: Chip8Opcode, s: EmuState, random: u8) -> bool {
    spec_execute_chip8(op, s, random).1
}

/// The state after a SUPER-CHIP instruction.
pub open spec fn after_super(op: SuperChipOpcode, s: EmuState, random: u8) -> EmuState {
    spec_execute_super(op, s, random).0
}

// ---------------------------------------------------------------------------------------------
// Timers
// ---------------------------------------------------------------------------------------------

/// `Fx07` copies the delay timer (and no other timer) into `Vx`; `Fx15` sets the delay timer
/// and `Fx18` the sound timer (starting the beep) from `Vx`, each leaving the other timer and
/// the registers alone. A delay timer that is set from `Vx` and then read into `Vy` gives back
/// the value of `Vx`.
pub proof fn law_timer_instructions(s: EmuState, x: u8, y: u8, random: u8)
    requires
        state_wf(s),
        s.has_memory_loaded,
        x < 16,
        y < 16,
    ensures
        after8(Chip8Opcode::PutDelayInRegX { registry: x }, s, random).v_registers[x as int]
            == s.delay_timer,
        forall|j: int|
            0 <= j < 16 && j != x ==> after8(
                Chip8Opcode::PutDelayInRegX { registry: x },
                s,
                random,
            ).v_registers[j] == s.v_registers[j],
        after8(Chip8Opcode::PutDelayInRegX { registry: x }, s, random).delay_timer
            == s.delay_timer,
        after8(Chip8Opcode::PutDelayInRegX { registry: x }, s, random).sound_timer
            == s.sound_timer,
        moves_on8(Chip8Opcode::PutDelayInRegX { registry: x }, s, random),
        after8(Chip8Opcode::SetDelayTimer { registry: x }, s, random).delay_timer
            == s.v_registers[x as int],
        after8(Chip8Opcode::SetDelayTimer { registry: x }, s, random).sound_timer
            == s.sound_timer,
        after8(Chip8Opcode::SetDelayTimer { registry: x }, s, random).v_registers
            == s.v_registers,
        moves_on8(Chip8Opcode::SetDelayTimer { registry: x }, s, random),
        after8(Chip8Opcode::SetSoundTimer { registry: x }, s, random).sound_timer
            == s.v_registers[x as int],
        after8(Chip8Opcode::SetSoundTimer { registry: x }, s, random).delay_timer
            == s.delay_timer,
        after8(Chip8Opcode::SetSoundTimer { registry: x }, s, random).sound_request == Some(
            SoundCommand::Play,
        ),
        after8(Chip8Opcode::SetSoundTimer { registry: x }, s, random).v_registers
            == s.v_registers,
        moves_on8(Chip8Opcode::SetSoundTimer { registry: x }, s, random),
        after8(
            Chip8Opcode::PutDelayInRegX { registry: y },
            after8(Chip8Opcode::SetDelayTimer { registry: x }, s, random),
            random,
        ).v_registers[y as int] == s.v_registers[x as int],
{
}

// ---------------------------------------------------------------------------------------------
// Keypad
// ---------------------------------------------------------------------------------------------

/// `Ex9E` skips the next instruction exactly when the key numbered by the value of `Vx` is
/// held down, and `ExA1` exactly when it is not; neither changes a register.
pub proof fn law_key_skips(s: EmuState, x: u8, random: u8)
    requires
        state_wf(s),
        s.has_memory_loaded,
        x < 16,
        s.v_registers[x as int] < 16,
        s.program_counter + 2 <= usize::MAX,
    ensures
        after8(Chip8Opcode::SkipIfPressed { registry: x }, s, random).program_counter == if s.keys[s.v_registers[x as int] as int] {
            s.program_counter + 2
        } else {
            s.program_counter as int
        },
        after8(Chip8Opcode::SkipIfNotPressed { registry: x }, s, random).program_counter == if s.keys[s.v_registers[x as int] as int] {
            s.program_counter as int
        } else {
            s.program_counter + 2
        },
        moves_on8(Chip8Opcode::SkipIfPressed { registry: x }, s, random),
        moves_on8(Chip8Opcode::SkipIfNotPressed { registry: x }, s, random),
        after8(Chip8Opcode::SkipIfPressed { registry: x }, s, random).v_registers
            == s.v_registers,
        after8(Chip8Opcode::SkipIfNotPressed { registry: x }, s, random).v_registers
            == s.v_registers,
{
}

/// The first key held down at or after `from` is `k` when `k` is held and none between is.
proof fn lemma_first_pressed_is(keys: Seq<bool>, from: int, k: int)
    requires
        0 <= from <= k < 16,
        keys[k],
        forall|j: int| from <= j < k ==> !keys[j],
    ensures
        first_pressed(keys, from) == Some(k as u8),
    decreases k - from,
{
    if from < k {
        lemma_first_pressed_is(keys, from + 1, k);
    }
}

/// `Fx0A` waits for a key press and release: with no key pending, the lowest key held down
/// becomes the pending one and the program waits; a pending key still held keeps it waiting
/// with nothing changed; once the pending key is released its number goes into `Vx`, nothing
/// is pending any more and the program moves on.
pub proof fn law_wait_for_key(s: EmuState, x: u8, k: u8, random: u8)
    requires
        state_wf(s),
        s.has_memory_loaded,
        x < 16,
        k < 16,
    ensures
        s.active_key is None && s.keys[k as int] && (forall|j: int| 0 <= j < k ==> !s.keys[j])
            ==> after8(Chip8Opcode::WaitForKey { registry: x }, s, random).active_key == Some(k)
            && after8(Chip8Opcode::WaitForKey { registry: x }, s, random).v_registers
            == s.v_registers && !moves_on8(Chip8Opcode::WaitForKey { registry: x }, s, random),
        s.active_key == Some(k) && s.keys[k as int] ==> spec_execute_chip8(
            Chip8Opcode::WaitForKey { registry: x },
            s,
            random,
        ) == (s, false),
        s.active_key == Some(k) && !s.keys[k as int] ==> after8(
            Chip8Opcode::WaitForKey { registry: x },
            s,
            random,
        ).v_registers[x as int] == k && after8(
            Chip8Opcode::WaitForKey { registry: x },
            s,
            random,
        ).active_key is None && moves_on8(Chip8Opcode::WaitForKey { registry: x }, s, random),
{
    if s.active_key is None && s.keys[k as int] && (forall|j: int| 0 <= j < k ==> !s.keys[j]) {
        lemma_first_pressed_is(s.keys, 0, k as int);
    }
}

// ---------------------------------------------------------------------------------------------
// Register arithmetic and logic
// ---------------------------------------------------------------------------------------------

/// Addition works modulo 256 (`x` is not `VF`): `7xkk` adds `kk` without touching `VF`, and
/// `8xy4` leaves the carry in `VF`, so that `Vx + 256·VF == Vx₀ + Vy`. No other register below
/// `VF` changes, and the program moves on.
#[verifier::spinoff_prover]
#[verifier::rlimit(50)]
pub proof fn law_addition(s: EmuState, x: u8, y: u8, kk: u8, random: u8)
    requires
        state_wf(s),
        s.has_memory_loaded,
        x < 15,
        y < 16,
    ensures
        after8(Chip8Opcode::Add { registry: x, value: kk }, s, random).v_registers[x as int] == (
        s.v_registers[x as int] + kk) % 256,
        after8(Chip8Opcode::Add { registry: x, value: kk }, s, random).v_registers[15]
            == s.v_registers[15],
        others_kept(s, after8(Chip8Opcode::Add { registry: x, value: kk }, s, random), x as int),
        moves_on8(Chip8Opcode::Add { registry: x, value: kk }, s, random),
        after8(Chip8Opcode::AddReg { registry: x, registry2: y }, s, random).v_registers[x as int]
            + 256 * after8(Chip8Opcode::AddReg { registry: x, registry2: y }, s, random).v_registers[15]
            == s.v_registers[x as int] + s.v_registers[y as int],
        others_kept(s, after8(Chip8Opcode::AddReg { registry: x, registry2: y }, s, random), x as int),
        moves_on8(Chip8Opcode::AddReg { registry: x, registry2: y }, s, random),
{
    let a = s.v_registers[x as int];
    let b = s.v_registers[y as int];
    let t = after8(Chip8Opcode::AddReg { registry: x, registry2: y }, s, random);
    assert(t.v_registers[x as int] == (a + b) % 256);
    if a + b > 255 {
        assert((a + b) % 256 == a + b - 256);
    } else {
        assert((a + b) % 256 == a + b);
    }
}

/// Subtraction works modulo 256 and leaves in `VF` 1 when there was no borrow and 0 when
/// there was (`x` is not `VF`): `8xy5` gives `Vx − 256·(1 − VF) == Vx₀ − Vy` and `8xy7`
/// gives `Vx − 256·(1 − VF) == Vy − Vx₀`. No other register below `VF` changes, and the
/// program moves on.
#[verifier::spinoff_prover]
#[verifier::rlimit(50)]
pub proof fn law_subtraction(s: EmuState, x: u8, y: u8, random: u8)
    requires
        state_wf(s),
        s.has_memory_loaded,
        x < 15,
        y < 16,
    ensures
        after8(Chip8Opcode::SubReg { registry: x, registry2: y }, s, random).v_registers[15] <= 1,
        after8(Chip8Opcode::SubReg { registry: x, registry2: y }, s, random).v_registers[x as int]
            - 256 * (1 - after8(Chip8Opcode::SubReg { registry: x, registry2: y }, s, random).v_registers[15])
            == s.v_registers[x as int] - s.v_registers[y as int],
        others_kept(s, after8(Chip8Opcode::SubReg { registry: x, registry2: y }, s, random), x as int),
        moves_on8(Chip8Opcode::SubReg { registry: x, registry2: y }, s, random),
        after8(Chip8Opcode::SubRegYX { registry: x, registry2: y }, s, random).v_registers[15] <= 1,
        after8(Chip8Opcode::SubRegYX { registry: x, registry2: y }, s, random).v_registers[x as int]
            - 256 * (1 - after8(Chip8Opcode::SubRegYX { registry: x, registry2: y }, s, random).v_registers[15])
            == s.v_registers[y as int] - s.v_registers[x as int],
        others_kept(s, after8(Chip8Opcode::SubRegYX { registry: x, registry2: y }, s, random), x as int),
        moves_on8(Chip8Opcode::SubRegYX { registry: x, registry2: y }, s, random),
{
    let a = s.v_registers[x as int];
    let b = s.v_registers[y as int];
    let t = after8(Chip8Opcode::SubReg { registry: x, registry2: y }, s, random);
    assert(t.v_registers[x as int] == (a - b + 256) % 256);
    if a >= b {
        assert((a - b + 256) % 256 == a - b);
    } else {
        assert((a - b + 256) % 256 == a - b + 256);
    }
    let u = after8(Chip8Opcode::SubRegYX { registry: x, registry2: y }, s, random);
    assert(u.v_registers[x as int] == (b - a + 256) % 256);
    if b >= a {
        assert((b - a + 256) % 256 == b - a);
    } else {
        assert((b - a + 256) % 256 == b - a + 256);
    }
}

/// The CHIP-8 shifts put `Vy` shifted by one into `Vx` and the bit shifted out into `VF`
/// (`x` is not `VF`): `8xy6` gives `2·Vx + VF == Vy` and `8xyE` gives
/// `Vx + 256·VF == 2·Vy`, with `VF` 0 or 1. No other register below `VF` changes, and the
/// program moves on.
#[verifier::spinoff_prover]
#[verifier::rlimit(50)]
pub proof fn law_shifts(s: EmuState, x: u8, y: u8, random: u8)
    requires
        state_wf(s),
        s.has_memory_loaded,
        x < 15,
        y < 16,
    ensures
        after8(Chip8Opcode::ShiftRight { registry: x, registry2: y }, s, random).v_registers[15] <= 1,
        2 * after8(Chip8Opcode::ShiftRight { registry: x, registry2: y }, s, random).v_registers[x as int]
            + after8(Chip8Opcode::ShiftRight { registry: x, registry2: y }, s, random).v_registers[15]
            == s.v_registers[y as int],
        others_kept(s, after8(Chip8Opcode::ShiftRight { registry: x, registry2: y }, s, random), x as int),
        moves_on8(Chip8Opcode::ShiftRight { registry: x, registry2: y }, s, random),
        after8(Chip8Opcode::ShiftLeft { registry: x, registry2: y }, s, random).v_registers[15] <= 1,
        after8(Chip8Opcode::ShiftLeft { registry: x, registry2: y }, s, random).v_registers[x as int]
            + 256 * after8(Chip8Opcode::ShiftLeft { registry: x, registry2: y }, s, random).v_registers[15]
            == 2 * s.v_registers[y as int],
        others_kept(s, after8(Chip8Opcode::ShiftLeft { registry: x, registry2: y }, s, random), x as int),
        moves_on8(Chip8Opcode::ShiftLeft { registry: x, registry2: y }, s, random),
{
    let b = s.v_registers[y as int];
    if b >= 128 {
        assert((b * 2) % 256 == b * 2 - 256);
    } else {
        assert((b * 2) % 256 == b * 2);
    }
}

/// `8xy0` copies `Vy` into `Vx`; `8xy1`, `8xy2` and `8xy3` put the bitwise or, and and
/// exclusive or of `Vx` and `Vy` into `Vx` and clear `VF` (`x` is not `VF`). A bit of the
/// result is set exactly when the operation's rule holds for that bit of the operands.
pub proof fn law_register_logic(s: EmuState, x: u8, y: u8, bit: u8, random: u8)
    requires
        state_wf(s),
        s.has_memory_loaded,
        x < 15,
        y < 16,
        bit < 8,
    ensures
        after8(Chip8Opcode::SetRegEq { registry: x, registry2: y }, s, random).v_registers[x as int]
            == s.v_registers[y as int],
        others_kept(s, after8(Chip8Opcode::SetRegEq { registry: x, registry2: y }, s, random), x as int),
        ({
            let a = s.v_registers[x as int];
            let b = s.v_registers[y as int];
            let m = 1u8 << bit;
            let or = after8(Chip8Opcode::BitOr { registry: x, registry2: y }, s, random);
            let and = after8(Chip8Opcode::BitAnd { registry: x, registry2: y }, s, random);
            let xor = after8(Chip8Opcode::BitXor { registry: x, registry2: y }, s, random);
            &&& (or.v_registers[x as int] & m != 0) == (a & m != 0 || b & m != 0)
            &&& (and.v_registers[x as int] & m != 0) == (a & m != 0 && b & m != 0)
            &&& (xor.v_registers[x as int] & m != 0) == ((a & m != 0) != (b & m != 0))
            &&& or.v_registers[15] == 0 && and.v_registers[15] == 0 && xor.v_registers[15] == 0
            &&& others_kept(s, or, x as int) && others_kept(s, and, x as int) && others_kept(
                s,
                xor,
                x as int,
            )
        }),
{
    let a = s.v_registers[x as int];
    let b = s.v_registers[y as int];
    assert(((a | b) & (1u8 << bit) != 0) == (a & (1u8 << bit) != 0 || b & (1u8 << bit) != 0))
        by (bit_vector)
        requires
            bit < 8,
    ;
    assert(((a & b) & (1u8 << bit) != 0) == (a & (1u8 << bit) != 0 && b & (1u8 << bit) != 0))
        by (bit_vector)
        requires
            bit < 8,
    ;
    assert(((a ^ b) & (1u8 << bit) != 0) == ((a & (1u8 << bit) != 0) != (b & (1u8 << bit)
        != 0))) by (bit_vector)
        requires
            bit < 8,
    ;
}

// ---------------------------------------------------------------------------------------------
// Skips and control flow
// ---------------------------------------------------------------------------------------------

/// `4xkk` skips exactly the next instruction when `Vx` differs from `kk`, and otherwise moves
/// on to the next one.
pub proof fn law_skip_if_not_equal(s: EmuState, random: u8)
    requires
        state_wf(s),
        s.has_memory_loaded,
        s.program_counter + 1 < MEMORY_SIZE,
        s.memory[s.program_counter as int] / 16 == 4,
    ensures
        ({
            let x = s.memory[s.program_counter as int] % 16;
            let kk = s.memory[s.program_counter + 1];
            spec_cycle::<Chip8Opcode>(s, random).program_counter == if s.v_registers[x as int]
                != kk {
                s.program_counter + 4
            } else {
                s.program_counter + 2
            }
        }),
{
    let hi = s.memory[s.program_counter as int];
    let lo = s.memory[s.program_counter + 1];
    let op = spec_fetch(s);
    assert(op == hi * 256 + lo);
    assert(op / 4096 == 4);
    assert((op / 256) % 16 == hi % 16);
    assert(op % 256 == lo);
}

/// `3xkk`, `4xkk`, `5xy0` and `9xy0` move the program counter by two more exactly when
/// their comparison holds (`Vx == kk`, `Vx != kk`, `Vx == Vy`, `Vx != Vy`) and change no
/// register; `1nnn` jumps to `nnn`, `Bnnn` to `nnn + V0`, and `2nnn` jumps to `nnn` after
/// pushing the address of the next instruction. The jumps leave the program counter where
/// they put it.
#[verifier::spinoff_prover]
#[verifier::rlimit(50)]
pub proof fn law_control_flow(s: EmuState, x: u8, y: u8, kk: u8, address: u16, random: u8)
    requires
        state_wf(s),
        s.has_memory_loaded,
        x < 16,
        y < 16,
        s.program_counter + 2 <= usize::MAX,
        s.stack_pointer < 16,
    ensures
        after8(Chip8Opcode::SkipIfEqValue { registry: x, value: kk }, s, random).program_counter
            == if s.v_registers[x as int] == kk {
            s.program_counter + 2
        } else {
            s.program_counter as int
        },
        after8(Chip8Opcode::SkipIfNotEqValue { registry: x, value: kk }, s, random).program_counter
            == if s.v_registers[x as int] != kk {
            s.program_counter + 2
        } else {
            s.program_counter as int
        },
        after8(Chip8Opcode::SkipIfRegEq { registry: x, registry2: y }, s, random).program_counter
            == if s.v_registers[x as int] == s.v_registers[y as int] {
            s.program_counter + 2
        } else {
            s.program_counter as int
        },
        after8(Chip8Opcode::SkipIfRegNotEq { registry: x, registry2: y }, s, random).program_counter
            == if s.v_registers[x as int] != s.v_registers[y as int] {
            s.program_counter + 2
        } else {
            s.program_counter as int
        },
        after8(Chip8Opcode::SkipIfEqValue { registry: x, value: kk }, s, random).v_registers
            == s.v_registers,
        after8(Chip8Opcode::SkipIfNotEqValue { registry: x, value: kk }, s, random).v_registers
            == s.v_registers,
        after8(Chip8Opcode::SkipIfRegEq { registry: x, registry2: y }, s, random).v_registers
            == s.v_registers,
        after8(Chip8Opcode::SkipIfRegNotEq { registry: x, registry2: y }, s, random).v_registers
            == s.v_registers,
        moves_on8(Chip8Opcode::SkipIfEqValue { registry: x, value: kk }, s, random),
        moves_on8(Chip8Opcode::SkipIfNotEqValue { registry: x, value: kk }, s, random),
        moves_on8(Chip8Opcode::SkipIfRegEq { registry: x, registry2: y }, s, random),
        moves_on8(Chip8Opcode::SkipIfRegNotEq { registry: x, registry2: y }, s, random),
        after8(Chip8Opcode::Jump { address }, s, random).program_counter == address,
        !moves_on8(Chip8Opcode::Jump { address }, s, random),
        after8(Chip8Opcode::JumpPlusV0 { address }, s, random).program_counter == address
            + s.v_registers[0],
        !moves_on8(Chip8Opcode::JumpPlusV0 { address }, s, random),
        after8(Chip8Opcode::Call { address }, s, random).program_counter == address,
        after8(Chip8Opcode::Call { address }, s, random).stack_pointer == s.stack_pointer + 1,
        after8(Chip8Opcode::Call { address }, s, random).stack[s.stack_pointer as int]
            == s.program_counter + 2,
        !moves_on8(Chip8Opcode::Call { address }, s, random),
{
}

// ---------------------------------------------------------------------------------------------
// Drawing: the collision flag
// ---------------------------------------------------------------------------------------------

/// `Dxyn` sets `VF` to 1 exactly when the draw turned some lit pixel off, and to 0 otherwise.
pub proof fn law_draw_reports_turned_off_pixels(s: EmuState, x: u8, y: u8, n: u8, random: u8)
    requires
        state_wf(s),
        s.has_memory_loaded,
    ensures
        ({
            let t = after8(Chip8Opcode::Draw { x, y, n }, s, random);
            t.v_registers[15] == if exists|i: int|
                0 <= i < s.display.len() && s.display[i] == 1 && t.display[i] == 0 {
                1u8
            } else {
                0u8
            }
        }),
{
    let t = after8(Chip8Opcode::Draw { x, y, n }, s, random);
    assert((1u8 ^ 1u8) == 0u8) by (bit_vector);
    assert forall|d: u8| (d ^ 1u8) != d by {
        assert((d ^ 1u8) != d) by (bit_vector);
    }
    assert(t.display.len() == s.display.len());
}

/// `DXY0` sets `VF` to 1 exactly when the draw turned some lit pixel off, and to 0 otherwise;
/// drawing the same large sprite twice at the same place therefore reports a collision the
/// second time whenever the first draw lit a pixel.
pub proof fn law_large_draw_reports_turned_off_pixels(s: EmuState, x: u8, y: u8, random: u8)
    requires
        state_wf(s),
        s.has_memory_loaded,
    ensures
        ({
            let t = after_super(SuperChipOpcode::LargeDraw { registry: x, registry2: y }, s, random);
            t.v_registers[15] == if exists|i: int|
                0 <= i < s.display.len() && s.display[i] == 1 && t.display[i] == 0 {
                1u8
            } else {
                0u8
            }
        }),
{
    let t = after_super(SuperChipOpcode::LargeDraw { registry: x, registry2: y }, s, random);
    assert((1u8 ^ 1u8) == 0u8) by (bit_vector);
    assert forall|d: u8| (d ^ 1u8) != d by {
        assert((d ^ 1u8) != d) by (bit_vector);
    }
    assert(t.display.len() == s.display.len());
}

// ---------------------------------------------------------------------------------------------
// Loads, memory and the index register
// ---------------------------------------------------------------------------------------------

/// `6xkk` puts `kk` in `Vx`, `Annn` puts `nnn` in the index register, `Fx1E` adds `Vx` to
/// it, `Fx29` points it at the five-byte small-font glyph of the digit `x` (loading the font
/// first when memory does not start with it), `Cxkk` puts the entropy byte masked by `kk` in
/// `Vx`, and `00E0` blanks every pixel of the screen and asks for a redraw.
pub proof fn law_loads(s: EmuState, x: u8, kk: u8, address: u16, random: u8)
    requires
        state_wf(s),
        s.has_memory_loaded,
        x < 16,
        s.index_register + s.v_registers[x as int] <= u16::MAX,
    ensures
        after8(Chip8Opcode::LoadVRegistry { registry: x, value: kk }, s, random).v_registers[x as int] == kk,
        forall|j: int|
            0 <= j < 16 && j != x ==> after8(
                Chip8Opcode::LoadVRegistry { registry: x, value: kk },
                s,
                random,
            ).v_registers[j] == s.v_registers[j],
        after8(Chip8Opcode::LoadIndexRegistry(address), s, random).index_register == address,
        after8(Chip8Opcode::AddAssignI { registry: x }, s, random).index_register
            == s.index_register + s.v_registers[x as int],
        after8(Chip8Opcode::GetFontStart { registry: x }, s, random).index_register == 5 * x,
        s.memory[0] != 0xF0 ==> after8(Chip8Opcode::GetFontStart { registry: x }, s, random).memory.take(80)
            == FONT_SET@,
        forall|a: int|
            80 <= a < MEMORY_SIZE ==> after8(Chip8Opcode::GetFontStart { registry: x }, s, random).memory[a]
                == s.memory[a],
        after8(Chip8Opcode::Random { registry: x, value: kk }, s, random).v_registers[x as int]
            == random & kk,
        after8(Chip8Opcode::ClearScreen, s, random).display.len() == s.display.len(),
        forall|i: int|
            0 <= i < s.display.len() ==> after8(Chip8Opcode::ClearScreen, s, random).display[i] == 0,
        after8(Chip8Opcode::ClearScreen, s, random).draw_flag,
{
    if s.memory[0] != 0xF0 {
        assert(after8(Chip8Opcode::GetFontStart { registry: x }, s, random).memory.take(80)
            =~= FONT_SET@);
    }
}

/// `Fx55` writes `V0`..=`Vx` to memory from the index register on, leaves every other byte,
/// and moves the index register past them; `Fx65` reads `V0`..=`Vx` back from there, leaves
/// the registers above `Vx`, and moves the index register the same way. The SUPER-CHIP set
/// does the same but leaves the index register where it was.
pub proof fn law_register_memory_transfer(s: EmuState, x: u8, random: u8)
    requires
        state_wf(s),
        s.has_memory_loaded,
        x < 16,
        s.index_register + x < MEMORY_SIZE,
    ensures
        forall|j: int|
            0 <= j <= x ==> #[trigger] after8(Chip8Opcode::StoreRegsIntoMem { max_registry: x }, s, random).memory[s.index_register + j]
                == s.v_registers[j],
        forall|a: int|
            0 <= a < MEMORY_SIZE && !(s.index_register <= a <= s.index_register + x) ==> #[trigger] after8(
                Chip8Opcode::StoreRegsIntoMem { max_registry: x },
                s,
                random,
            ).memory[a] == s.memory[a],
        after8(Chip8Opcode::StoreRegsIntoMem { max_registry: x }, s, random).index_register
            == s.index_register + x + 1,
        forall|j: int|
            0 <= j <= x ==> #[trigger] after8(Chip8Opcode::LoadMemIntoRegs { max_registry: x }, s, random).v_registers[j]
                == s.memory[s.index_register + j],
        forall|j: int|
            x < j < 16 ==> #[trigger] after8(Chip8Opcode::LoadMemIntoRegs { max_registry: x }, s, random).v_registers[j]
                == s.v_registers[j],
        after8(Chip8Opcode::LoadMemIntoRegs { max_registry: x }, s, random).index_register
            == s.index_register + x + 1,
        forall|j: int|
            0 <= j <= x ==> #[trigger] after_super(
                SuperChipOpcode::Chip8(Chip8Opcode::StoreRegsIntoMem { max_registry: x }),
                s,
                random,
            ).memory[s.index_register + j] == s.v_registers[j],
        after_super(
            SuperChipOpcode::Chip8(Chip8Opcode::StoreRegsIntoMem { max_registry: x }),
            s,
            random,
        ).index_register == s.index_register,
        forall|j: int|
            0 <= j <= x ==> #[trigger] after_super(
                SuperChipOpcode::Chip8(Chip8Opcode::LoadMemIntoRegs { max_registry: x }),
                s,
                random,
            ).v_registers[j] == s.memory[s.index_register + j],
        after_super(
            SuperChipOpcode::Chip8(Chip8Opcode::LoadMemIntoRegs { max_registry: x }),
            s,
            random,
        ).index_register == s.index_register,
{
}

// ---------------------------------------------------------------------------------------------
// Where the SUPER-CHIP set differs from CHIP-8
// ---------------------------------------------------------------------------------------------

/// On the SUPER-CHIP the shifts work on `Vx` in place (`8xy6`: `2·Vx + VF == Vx₀`;
/// `8xyE`: `Vx + 256·VF == 2·Vx₀`), the logic instructions leave `VF` alone, and `Bxnn` jumps
/// to `xnn + Vx`.
#[verifier::spinoff_prover]
#[verifier::rlimit(50)]
pub proof fn law_super_chip_quirks(s: EmuState, x: u8, y: u8, address: u16, random: u8)
    requires
        state_wf(s),
        s.has_memory_loaded,
        x < 15,
        y < 16,
        address < 0x1000,
    ensures
        after_super(SuperChipOpcode::Chip8(Chip8Opcode::ShiftRight { registry: x, registry2: y }), s, random).v_registers[15] <= 1,
        2 * after_super(SuperChipOpcode::Chip8(Chip8Opcode::ShiftRight { registry: x, registry2: y }), s, random).v_registers[x as int]
            + after_super(SuperChipOpcode::Chip8(Chip8Opcode::ShiftRight { registry: x, registry2: y }), s, random).v_registers[15]
            == s.v_registers[x as int],
        after_super(SuperChipOpcode::Chip8(Chip8Opcode::ShiftLeft { registry: x, registry2: y }), s, random).v_registers[x as int]
            + 256 * after_super(SuperChipOpcode::Chip8(Chip8Opcode::ShiftLeft { registry: x, registry2: y }), s, random).v_registers[15]
            == 2 * s.v_registers[x as int],
        after_super(SuperChipOpcode::Chip8(Chip8Opcode::BitOr { registry: x, registry2: y }), s, random).v_registers[15]
            == s.v_registers[15],
        after_super(SuperChipOpcode::Chip8(Chip8Opcode::BitAnd { registry: x, registry2: y }), s, random).v_registers[15]
            == s.v_registers[15],
        after_super(SuperChipOpcode::Chip8(Chip8Opcode::BitXor { registry: x, registry2: y }), s, random).v_registers[15]
            == s.v_registers[15],
        after_super(SuperChipOpcode::Chip8(Chip8Opcode::BitOr { registry: x, registry2: y }), s, random).v_registers[x as int]
            == after8(Chip8Opcode::BitOr { registry: x, registry2: y }, s, random).v_registers[x as int],
        after_super(SuperChipOpcode::Chip8(Chip8Opcode::BitAnd { registry: x, registry2: y }), s, random).v_registers[x as int]
            == after8(Chip8Opcode::BitAnd { registry: x, registry2: y }, s, random).v_registers[x as int],
        after_super(SuperChipOpcode::Chip8(Chip8Opcode::BitXor { registry: x, registry2: y }), s, random).v_registers[x as int]
            == after8(Chip8Opcode::BitXor { registry: x, registry2: y }, s, random).v_registers[x as int],
        after_super(SuperChipOpcode::Chip8(Chip8Opcode::JumpPlusV0 { address }), s, random).program_counter
            == address + s.v_registers[(address / 256) as int],
{
    let b = s.v_registers[x as int];
    if b >= 128 {
        assert((b * 2) % 256 == b * 2 - 256);
    } else {
        assert((b * 2) % 256 == b * 2);
    }
    assert((address / 256) % 16 == address / 256);
}

/// Every CHIP-8 instruction other than the shifts, the register transfers to and from memory,
/// the logic instructions and `Bnnn` has the same effect on the SUPER-CHIP as on the CHIP-8.
pub proof fn law_super_chip_runs_chip8(s: EmuState, op: Chip8Opcode, random: u8)
    requires
        !(op is ShiftRight || op is ShiftLeft || op is StoreRegsIntoMem || op is LoadMemIntoRegs
            || op is BitOr || op is BitAnd || op is BitXor || op is JumpPlusV0),
    ensures
        spec_execute_super(SuperChipOpcode::Chip8(op), s, random) == spec_execute_chip8(op, s, random),
{
}

/// `00FF` gives a blank 128 by 64 screen and `00FE` a blank 64 by 32 one; `00FD` puts the
/// machine back in the state of a fresh one (no program, empty registers and memory) and asks
/// for a redraw; `Fx30` points the index register at the ten-byte large-font glyph of the
/// digit `x`, loading the large font when it is not in memory yet.
pub proof fn law_super_screen_and_exit(s: EmuState, x: u8, random: u8)
    requires
        state_wf(s),
        s.has_memory_loaded,
        x < 16,
    ensures
        after_super(SuperChipOpcode::RaiseScreenResolution, s, random).display.len() == 8192,
        forall|i: int|
            0 <= i < 8192 ==> after_super(SuperChipOpcode::RaiseScreenResolution, s, random).display[i] == 0,
        after_super(SuperChipOpcode::LowerScreenResolution, s, random).display.len() == 2048,
        forall|i: int|
            0 <= i < 2048 ==> after_super(SuperChipOpcode::LowerScreenResolution, s, random).display[i] == 0,
        !after_super(SuperChipOpcode::Exit, s, random).has_memory_loaded,
        forall|j: int| 0 <= j < 16 ==> after_super(SuperChipOpcode::Exit, s, random).v_registers[j] == 0,
        forall|a: int| 0 <= a < MEMORY_SIZE ==> after_super(SuperChipOpcode::Exit, s, random).memory[a] == 0,
        after_super(SuperChipOpcode::Exit, s, random).program_counter == 0,
        after_super(SuperChipOpcode::Exit, s, random).draw_flag,
        after_super(SuperChipOpcode::SetFontLarge { registry: x }, s, random).index_register
            == BIG_FONT_START + 10 * x,
        s.memory[BIG_FONT_START as int] == 0 ==> after_super(SuperChipOpcode::SetFontLarge { registry: x }, s, random).memory.subrange(
            BIG_FONT_START as int,
            BIG_FONT_START + 160,
        ) == BIG_FONT@,
{
    if s.memory[BIG_FONT_START as int] == 0 {
        assert(after_super(SuperChipOpcode::SetFontLarge { registry: x }, s, random).memory.subrange(
            BIG_FONT_START as int,
            BIG_FONT_START + 160,
        ) =~= BIG_FONT@);
    }
}

// ---------------------------------------------------------------------------------------------
// Drawing: where the sprite lands
// ---------------------------------------------------------------------------------------------

/// Bit `c` of `row`, counted from the most significant bit, as 0 or 1.
pub open spec fn bit_of(row: u8, c: u8) -> u8 {
    (row >> ((7 - c) as u8)) & 1u8
}

/// A sprite row tests bit `c` from the most significant end.
proof fn lemma_sprite_bit(row: u8, c: u8)
    requires
        c < 8,
    ensures
        sprite_bit(row, c as int) == (bit_of(row, c) == 1),
        bit_of(row, c) <= 1,
{
    assert((row & (0x80u8 >> c) != 0) == ((row >> ((7 - c) as u8)) & 1u8 == 1u8)) by (bit_vector)
        requires
            c < 8,
    ;
    assert((row >> ((7 - c) as u8)) & 1u8 <= 1u8) by (bit_vector);
}

/// The pixel at column `px` and row `py` of a screen `w` pixels wide has index `px + py·w`.
proof fn lemma_pixel_at(w: int, px: int, py: int)
    requires
        0 < w,
        0 <= px < w,
        0 <= py,
    ensures
        (px + py * w) % w == px,
        (px + py * w) / w == py,
{
    lemma_fundamental_div_mod_converse(px + py * w, w, py, px);
}

/// `Dxyn` places the sprite at column `Vx mod width` and row `Vy mod height`: for each of its
/// `n` rows `r` and eight columns `c` whose pixel lies on the screen, that pixel is flipped
/// exactly when bit `c` (from the most significant end) of memory byte `I + r` is set.
pub proof fn law_draw_places_sprite(s: EmuState, x: u8, y: u8, n: u8, r: u8, c: u8, random: u8)
    requires
        state_wf(s),
        s.has_memory_loaded,
        x < 16,
        y < 16,
        display_size_ok(s),
        r < n,
        c < 8,
        s.index_register + n <= MEMORY_SIZE,
    ensures
        ({
            let t = after8(Chip8Opcode::Draw { x, y, n }, s, random);
            let w = display_dims(s.display.len()).0 as int;
            let h = display_dims(s.display.len()).1 as int;
            let vx = s.v_registers[x as int] as int % w;
            let vy = s.v_registers[y as int] as int % h;
            let i = (vx + c) + (vy + r) * w;
            vx + c < w && vy + r < h ==> t.display[i] == s.display[i] ^ bit_of(
                s.memory[s.index_register + r],
                c,
            )
        }),
{
    let t = after8(Chip8Opcode::Draw { x, y, n }, s, random);
    let w = display_dims(s.display.len()).0 as int;
    let h = display_dims(s.display.len()).1 as int;
    let vx = s.v_registers[x as int] as int % w;
    let vy = s.v_registers[y as int] as int % h;
    let i = (vx + c) + (vy + r) * w;
    if vx + c < w && vy + r < h {
        lemma_pixel_at(w, vx + c, vy + r);
        assert(0 <= i < s.display.len()) by (nonlinear_arith)
            requires
                i == (vx + c) + (vy + r) * w,
                0 <= vx + c < w,
                0 <= vy + r < h,
                (w == 64 && h == 32 && s.display.len() == 2048) || (w == 128 && h == 64
                    && s.display.len() == 8192),
        ;
        let row = s.memory[s.index_register + r];
        lemma_sprite_bit(row, c);
        let d = s.display[i];
        assert((d ^ 0u8) == d) by (bit_vector);
        assert(bit_of(row, c) == 1 || bit_of(row, c) == 0);
    }
}

/// A pixel outside the rectangle of `n` rows and eight columns from
/// (`Vx mod width`, `Vy mod height`) keeps its value when `Dxyn` runs.
pub proof fn law_draw_keeps_other_pixels(s: EmuState, x: u8, y: u8, n: u8, i: int, random: u8)
    requires
        state_wf(s),
        s.has_memory_loaded,
        display_size_ok(s),
        0 <= i < s.display.len(),
    ensures
        ({
            let t = after8(Chip8Opcode::Draw { x, y, n }, s, random);
            let w = display_dims(s.display.len()).0 as int;
            let h = display_dims(s.display.len()).1 as int;
            let vx = s.v_registers[x as int] as int % w;
            let vy = s.v_registers[y as int] as int % h;
            !(vx <= i % w < vx + 8 && vy <= i / w < vy + n) ==> t.display[i] == s.display[i]
        }),
{
}

/// Bit `dx` (from the most significant end) of the 16-bit large sprite row whose high byte
/// is `hi` and low byte `lo`, as 0 or 1.
pub open spec fn large_bit_of(hi: u8, lo: u8, dx: u8) -> u8 {
    if dx < 8 {
        bit_of(hi, dx)
    } else {
        bit_of(lo, (dx - 8) as u8)
    }
}

/// A large sprite row tests bit `dx` from the most significant end of its two bytes.
proof fn lemma_large_bit(hi: u8, lo: u8, dx: u8)
    requires
        dx < 16,
    ensures
        large_bit(((hi * 256 + lo) as u16), dx as int) == (large_bit_of(hi, lo, dx) == 1),
        large_bit_of(hi, lo, dx) <= 1,
{
    let h = hi as u16;
    let l = lo as u16;
    let d = dx as u16;
    assert(((hi * 256 + lo) as u16) == ((h * 256 + l) as u16));
    assert((((h * 256 + l) as u16) & (0x8000u16 >> d) != 0) == (if d < 8 {
        (h >> ((7 - d) as u16)) & 1u16 == 1u16
    } else {
        (l >> ((15 - d) as u16)) & 1u16 == 1u16
    })) by (bit_vector)
        requires
            h < 256,
            l < 256,
            d < 16,
    ;
    if dx < 8 {
        assert(((h >> ((7 - d) as u16)) & 1u16 == 1u16) == ((hi >> ((7 - dx) as u8)) & 1u8 == 1u8))
            by (bit_vector)
            requires
                h == hi as u16,
                d == dx as u16,
                dx < 8,
        ;
    } else {
        assert(((l >> ((15 - d) as u16)) & 1u16 == 1u16) == ((lo >> ((15 - dx) as u8)) & 1u8
            == 1u8)) by (bit_vector)
            requires
                l == lo as u16,
                d == dx as u16,
                8 <= dx < 16,
        ;
        assert((7 - (dx - 8) as u8) as u8 == (15 - dx) as u8);
    }
    assert((hi >> ((7 - dx) as u8)) & 1u8 <= 1u8) by (bit_vector);
    assert((lo >> ((15 - dx) as u8)) & 1u8 <= 1u8) by (bit_vector);
    assert((lo >> ((7 - (dx - 8) as u8) as u8)) & 1u8 <= 1u8) by (bit_vector);
}

/// Taking `(a mod 128) − b` modulo 128 gives `a − b` modulo 128.
proof fn lemma_wrapped_offset(vx: int, dx: int)
    requires
        0 <= vx,
        0 <= dx < 128,
    ensures
        ((vx + dx) % 128 - vx) % 128 == dx,
{
    let a = vx + dx;
    let q = a / 128;
    lemma_fundamental_div_mod(a, 128);
    assert((a % 128) - vx == (-q) * 128 + dx);
    lemma_fundamental_div_mod_converse((a % 128) - vx, 128, -q, dx);
}

/// On the 128 by 64 screen, `DXY0` places the 16 by 16 sprite at column `Vx` (wrapping at the
/// right edge) and row `Vy`: for each sprite row `dy` and column `dx` that lies above the
/// bottom edge, the pixel at ((`Vx + dx`) mod 128, `Vy + dy`) is flipped exactly when bit `dx`
/// of the sprite row stored at `I + 2·dy` is set (`x` and `y` are not `VF`).
pub proof fn law_large_draw_places_sprite(s: EmuState, x: u8, y: u8, dx: u8, dy: u8, random: u8)
    requires
        state_wf(s),
        s.has_memory_loaded,
        x < 15,
        y < 15,
        s.display.len() == 8192,
        dx < 16,
        dy < 16,
        s.v_registers[y as int] + dy < 64,
        s.index_register + 31 < MEMORY_SIZE,
    ensures
        ({
            let t = after_super(SuperChipOpcode::LargeDraw { registry: x, registry2: y }, s, random);
            let vx = s.v_registers[x as int] as int;
            let vy = s.v_registers[y as int] as int;
            let i = (vx + dx) % 128 + (vy + dy) * 128;
            t.display[i] == s.display[i] ^ large_bit_of(
                s.memory[s.index_register + 2 * dy],
                s.memory[s.index_register + 2 * dy + 1],
                dx,
            )
        }),
{
    let t = after_super(SuperChipOpcode::LargeDraw { registry: x, registry2: y }, s, random);
    let vx = s.v_registers[x as int] as int;
    let vy = s.v_registers[y as int] as int;
    let px = (vx + dx) % 128;
    let i = px + (vy + dy) * 128;
    lemma_pixel_at(128, px, vy + dy);
    lemma_wrapped_offset(vx, dx as int);
    assert(0 <= i < 8192);
    let hi = s.memory[s.index_register + 2 * dy];
    let lo = s.memory[s.index_register + 2 * dy + 1];
    lemma_large_bit(hi, lo, dx);
    let d = s.display[i];
    assert((d ^ 0u8) == d) by (bit_vector);
    assert(large_bit_of(hi, lo, dx) == 1 || large_bit_of(hi, lo, dx) == 0);
}

// ---------------------------------------------------------------------------------------------
// Scrolling
// ---------------------------------------------------------------------------------------------

/// `00FB` moves every pixel four columns right and blanks the four leftmost columns; `00FC`
/// moves every pixel four columns left and blanks the four rightmost columns; `00Cn` moves
/// every pixel `n` rows down and blanks the top `n` rows. The screen keeps its size.
pub proof fn law_scrolls(s: EmuState, px: int, py: int, n: u8, random: u8)
    requires
        state_wf(s),
        display_size_ok(s),
        0 <= px < display_dims(s.display.len()).0,
        0 <= py < display_dims(s.display.len()).1,
    ensures
        ({
            let w = display_dims(s.display.len()).0 as int;
            let h = display_dims(s.display.len()).1 as int;
            let right = after_super(SuperChipOpcode::ScrollRight, s, random).display;
            let left = after_super(SuperChipOpcode::ScrollLeft, s, random).display;
            let down = after_super(SuperChipOpcode::ScrollDown { n }, s, random).display;
            &&& right.len() == s.display.len() && left.len() == s.display.len() && down.len()
                == s.display.len()
            &&& px + 4 < w ==> right[(px + 4) + py * w] == s.display[px + py * w]
            &&& px < 4 ==> right[px + py * w] == 0
            &&& px + 4 < w ==> left[px + py * w] == s.display[(px + 4) + py * w]
            &&& px >= w - 4 ==> left[px + py * w] == 0
            &&& py + n < h ==> down[px + (py + n) * w] == s.display[px + py * w]
            &&& py < n ==> down[px + py * w] == 0
        }),
{
    let w = display_dims(s.display.len()).0 as int;
    let h = display_dims(s.display.len()).1 as int;
    assert(s.display.len() == w * h) by {
        if s.display.len() == 2048 {
            assert(w == 64 && h == 32);
        } else {
            assert(w == 128 && h == 64);
        }
    }
    lemma_pixel_at(w, px, py);
    assert(0 <= px + py * w < w * h) by (nonlinear_arith)
        requires
            0 <= px < w,
            0 <= py < h,
    ;
    if px + 4 < w {
        lemma_pixel_at(w, px + 4, py);
        assert(px + 4 + py * w < w * h) by (nonlinear_arith)
            requires
                0 <= px + 4 < w,
                0 <= py < h,
        ;
    }
    if py + n < h {
        lemma_pixel_at(w, px, py + n);
        assert(px + (py + n) * w < w * h) by (nonlinear_arith)
            requires
                0 <= px < w,
                0 <= py + n < h,
        ;
        assert(px + (py + n) * w - n * w == px + py * w) by (nonlinear_arith);
    }
}

// ---------------------------------------------------------------------------------------------
// Decoding
// ---------------------------------------------------------------------------------------------

/// The opcode made of the four nibbles `t`, `x`, `y` and `n`, most significant first.
pub open spec fn opcode_of(t: u16, x: u8, y: u8, n: u8) -> u16 {
    (t * 4096 + x * 256 + y * 16 + n) as u16
}

/// The nibble fields of an opcode built from its nibbles are those nibbles.
proof fn lemma_nibbles(t: u16, x: u8, y: u8, n: u8)
    requires
        t < 16,
        x < 16,
        y < 16,
        n < 16,
    ensures
        nibble_t(opcode_of(t, x, y, n)) == t,
        nibble_x(opcode_of(t, x, y, n)) == x,
        nibble_y(opcode_of(t, x, y, n)) == y,
        nibble_n(opcode_of(t, x, y, n)) == n,
        low_byte(opcode_of(t, x, y, n)) == y * 16 + n,
        low_address(opcode_of(t, x, y, n)) == x * 256 + y * 16 + n,
{
    let o = t * 4096 + x * 256 + y * 16 + n;
    assert(opcode_of(t, x, y, n) == o);
    lemma_fundamental_div_mod_converse(o, 4096, t as int, x * 256 + y * 16 + n);
    lemma_fundamental_div_mod_converse(o, 256, t * 16 + x, y * 16 + n);
    lemma_fundamental_div_mod_converse(t * 16 + x, 16, t as int, x as int);
    lemma_fundamental_div_mod_converse(o, 16, t * 256 + x * 16 + y, n as int);
    lemma_fundamental_div_mod_converse(t * 256 + x * 16 + y, 16, t * 16 + x, y as int);
}

/// `6xkk`, `7xkk`, `3xkk`, `4xkk` and `Cxkk` decode with register `x` and value `kk`; `Annn`, `1nnn`, `2nnn` and `Bnnn` with address `nnn`; `Dxyn` with `x`, `y` and `n`.
#[verifier::spinoff_prover]
pub proof fn law_decode_immediates(x: u8, y: u8, n: u8)
    requires
        x < 16,
        y < 16,
        n < 16,
    ensures
        spec_decode_chip8(opcode_of(0x6, x, y, n)) == Ok::<Chip8Opcode, UnkownOpCodeErr>(Chip8Opcode::LoadVRegistry { registry: x, value: (y * 16 + n) as u8 }),
        spec_decode_chip8(opcode_of(0x7, x, y, n)) == Ok::<Chip8Opcode, UnkownOpCodeErr>(Chip8Opcode::Add { registry: x, value: (y * 16 + n) as u8 }),
        spec_decode_chip8(opcode_of(0x3, x, y, n)) == Ok::<Chip8Opcode, UnkownOpCodeErr>(Chip8Opcode::SkipIfEqValue { registry: x, value: (y * 16 + n) as u8 }),
        spec_decode_chip8(opcode_of(0x4, x, y, n)) == Ok::<Chip8Opcode, UnkownOpCodeErr>(Chip8Opcode::SkipIfNotEqValue { registry: x, value: (y * 16 + n) as u8 }),
        spec_decode_chip8(opcode_of(0xC, x, y, n)) == Ok::<Chip8Opcode, UnkownOpCodeErr>(Chip8Opcode::Random { registry: x, value: (y * 16 + n) as u8 }),
        spec_decode_chip8(opcode_of(0xA, x, y, n)) == Ok::<Chip8Opcode, UnkownOpCodeErr>(Chip8Opcode::LoadIndexRegistry((x * 256 + y * 16 + n) as u16)),
        spec_decode_chip8(opcode_of(0x1, x, y, n)) == Ok::<Chip8Opcode, UnkownOpCodeErr>(Chip8Opcode::Jump { address: (x * 256 + y * 16 + n) as u16 }),
        spec_decode_chip8(opcode_of(0x2, x, y, n)) == Ok::<Chip8Opcode, UnkownOpCodeErr>(Chip8Opcode::Call { address: (x * 256 + y * 16 + n) as u16 }),
        spec_decode_chip8(opcode_of(0xB, x, y, n)) == Ok::<Chip8Opcode, UnkownOpCodeErr>(Chip8Opcode::JumpPlusV0 { address: (x * 256 + y * 16 + n) as u16 }),
        spec_decode_chip8(opcode_of(0xD, x, y, n)) == Ok::<Chip8Opcode, UnkownOpCodeErr>(Chip8Opcode::Draw { x, y, n }),
{
    lemma_nibbles(0x6, x, y, n);
    lemma_nibbles(0x7, x, y, n);
    lemma_nibbles(0x3, x, y, n);
    lemma_nibbles(0x4, x, y, n);
    lemma_nibbles(0xC, x, y, n);
    lemma_nibbles(0xA, x, y, n);
    lemma_nibbles(0x1, x, y, n);
    lemma_nibbles(0x2, x, y, n);
    lemma_nibbles(0xB, x, y, n);
    lemma_nibbles(0xD, x, y, n);
}

/// `5xy0` and `9xy0` compare `Vx` with `Vy`, and `8xyn` decodes by its last nibble to copy, or, and, exclusive or, add, subtract, shift right, reverse subtract and shift left of `x` and `y`.
#[verifier::spinoff_prover]
pub proof fn law_decode_register_pairs(x: u8, y: u8)
    requires
        x < 16,
        y < 16,
    ensures
        spec_decode_chip8(opcode_of(0x5, x, y, 0)) == Ok::<Chip8Opcode, UnkownOpCodeErr>(Chip8Opcode::SkipIfRegEq { registry: x, registry2: y }),
        spec_decode_chip8(opcode_of(0x9, x, y, 0)) == Ok::<Chip8Opcode, UnkownOpCodeErr>(Chip8Opcode::SkipIfRegNotEq { registry: x, registry2: y }),
        spec_decode_chip8(opcode_of(0x8, x, y, 0)) == Ok::<Chip8Opcode, UnkownOpCodeErr>(Chip8Opcode::SetRegEq { registry: x, registry2: y }),
        spec_decode_chip8(opcode_of(0x8, x, y, 1)) == Ok::<Chip8Opcode, UnkownOpCodeErr>(Chip8Opcode::BitOr { registry: x, registry2: y }),
        spec_decode_chip8(opcode_of(0x8, x, y, 2)) == Ok::<Chip8Opcode, UnkownOpCodeErr>(Chip8Opcode::BitAnd { registry: x, registry2: y }),
        spec_decode_chip8(opcode_of(0x8, x, y, 3)) == Ok::<Chip8Opcode, UnkownOpCodeErr>(Chip8Opcode::BitXor { registry: x, registry2: y }),
        spec_decode_chip8(opcode_of(0x8, x, y, 4)) == Ok::<Chip8Opcode, UnkownOpCodeErr>(Chip8Opcode::AddReg { registry: x, registry2: y }),
        spec_decode_chip8(opcode_of(0x8, x, y, 5)) == Ok::<Chip8Opcode, UnkownOpCodeErr>(Chip8Opcode::SubReg { registry: x, registry2: y }),
        spec_decode_chip8(opcode_of(0x8, x, y, 6)) == Ok::<Chip8Opcode, UnkownOpCodeErr>(Chip8Opcode::ShiftRight { registry: x, registry2: y }),
        spec_decode_chip8(opcode_of(0x8, x, y, 7)) == Ok::<Chip8Opcode, UnkownOpCodeErr>(Chip8Opcode::SubRegYX { registry: x, registry2: y }),
        spec_decode_chip8(opcode_of(0x8, x, y, 0xE)) == Ok::<Chip8Opcode, UnkownOpCodeErr>(Chip8Opcode::ShiftLeft { registry: x, registry2: y }),
{
    lemma_nibbles(0x5, x, y, 0);
    lemma_nibbles(0x9, x, y, 0);
    lemma_nibbles(0x8, x, y, 0);
    lemma_nibbles(0x8, x, y, 1);
    lemma_nibbles(0x8, x, y, 2);
    lemma_nibbles(0x8, x, y, 3);
    lemma_nibbles(0x8, x, y, 4);
    lemma_nibbles(0x8, x, y, 5);
    lemma_nibbles(0x8, x, y, 6);
    lemma_nibbles(0x8, x, y, 7);
    lemma_nibbles(0x8, x, y, 0xE);
}

/// `Ex9E`, `ExA1` and the `Fx..` instructions decode with register `x`: key skips, the timers, waiting for a key, `I += Vx`, the font glyph, the decimal digits and the register transfers; `00E0` clears the screen and `00EE` returns.
#[verifier::spinoff_prover]
pub proof fn law_decode_single_register(x: u8)
    requires
        x < 16,
    ensures
        spec_decode_chip8(opcode_of(0xE, x, 9, 0xE)) == Ok::<Chip8Opcode, UnkownOpCodeErr>(Chip8Opcode::SkipIfPressed { registry: x }),
        spec_decode_chip8(opcode_of(0xE, x, 0xA, 1)) == Ok::<Chip8Opcode, UnkownOpCodeErr>(Chip8Opcode::SkipIfNotPressed { registry: x }),
        spec_decode_chip8(opcode_of(0xF, x, 0, 7)) == Ok::<Chip8Opcode, UnkownOpCodeErr>(Chip8Opcode::PutDelayInRegX { registry: x }),
        spec_decode_chip8(opcode_of(0xF, x, 0, 0xA)) == Ok::<Chip8Opcode, UnkownOpCodeErr>(Chip8Opcode::WaitForKey { registry: x }),
        spec_decode_chip8(opcode_of(0xF, x, 1, 5)) == Ok::<Chip8Opcode, UnkownOpCodeErr>(Chip8Opcode::SetDelayTimer { registry: x }),
        spec_decode_chip8(opcode_of(0xF, x, 1, 8)) == Ok::<Chip8Opcode, UnkownOpCodeErr>(Chip8Opcode::SetSoundTimer { registry: x }),
        spec_decode_chip8(opcode_of(0xF, x, 1, 0xE)) == Ok::<Chip8Opcode, UnkownOpCodeErr>(Chip8Opcode::AddAssignI { registry: x }),
        spec_decode_chip8(opcode_of(0xF, x, 2, 9)) == Ok::<Chip8Opcode, UnkownOpCodeErr>(Chip8Opcode::GetFontStart { registry: x }),
        spec_decode_chip8(opcode_of(0xF, x, 3, 3)) == Ok::<Chip8Opcode, UnkownOpCodeErr>(Chip8Opcode::StoreVXAsBinary { registry: x }),
        spec_decode_chip8(opcode_of(0xF, x, 5, 5)) == Ok::<Chip8Opcode, UnkownOpCodeErr>(Chip8Opcode::StoreRegsIntoMem { max_registry: x }),
        spec_decode_chip8(opcode_of(0xF, x, 6, 5)) == Ok::<Chip8Opcode, UnkownOpCodeErr>(Chip8Opcode::LoadMemIntoRegs { max_registry: x }),
        spec_decode_chip8(opcode_of(0, 0, 0xE, 0)) == Ok::<Chip8Opcode, UnkownOpCodeErr>(Chip8Opcode::ClearScreen),
        spec_decode_chip8(opcode_of(0, 0, 0xE, 0xE)) == Ok::<Chip8Opcode, UnkownOpCodeErr>(Chip8Opcode::Return),
{
    lemma_nibbles(0xE, x, 9, 0xE);
    lemma_nibbles(0xE, x, 0xA, 1);
    lemma_nibbles(0xF, x, 0, 7);
    lemma_nibbles(0xF, x, 0, 0xA);
    lemma_nibbles(0xF, x, 1, 5);
    lemma_nibbles(0xF, x, 1, 8);
    lemma_nibbles(0xF, x, 1, 0xE);
    lemma_nibbles(0xF, x, 2, 9);
    lemma_nibbles(0xF, x, 3, 3);
    lemma_nibbles(0xF, x, 5, 5);
    lemma_nibbles(0xF, x, 6, 5);
    lemma_nibbles(0, 0, 0xE, 0);
    lemma_nibbles(0, 0, 0xE, 0xE);
}

/// The SUPER-CHIP instructions decode by their patterns: `00FF` and `00FE` switch the
/// resolution, `00FB`, `00FC` and `00Cn` scroll, `00FD` exits, `Dxy0` draws a large sprite,
/// `Fx30` points at a large glyph, and `Fx75` and `Fx85` save and load registers.
#[verifier::spinoff_prover]
pub proof fn law_decode_super_instructions(x: u8, y: u8, n: u8)
    requires
        x < 16,
        y < 16,
        n < 16,
    ensures
        spec_decode_super(opcode_of(0, 0, 0xF, 0xF)) == Ok::<SuperChipOpcode, UnkownOpCodeErr>(SuperChipOpcode::RaiseScreenResolution),
        spec_decode_super(opcode_of(0, 0, 0xF, 0xE)) == Ok::<SuperChipOpcode, UnkownOpCodeErr>(SuperChipOpcode::LowerScreenResolution),
        spec_decode_super(opcode_of(0, 0, 0xF, 0xB)) == Ok::<SuperChipOpcode, UnkownOpCodeErr>(SuperChipOpcode::ScrollRight),
        spec_decode_super(opcode_of(0, 0, 0xF, 0xC)) == Ok::<SuperChipOpcode, UnkownOpCodeErr>(SuperChipOpcode::ScrollLeft),
        spec_decode_super(opcode_of(0, 0, 0xF, 0xD)) == Ok::<SuperChipOpcode, UnkownOpCodeErr>(SuperChipOpcode::Exit),
        spec_decode_super(opcode_of(0, 0, 0xC, n)) == Ok::<SuperChipOpcode, UnkownOpCodeErr>(SuperChipOpcode::ScrollDown { n }),
        spec_decode_super(opcode_of(0xD, x, y, 0)) == Ok::<SuperChipOpcode, UnkownOpCodeErr>(SuperChipOpcode::LargeDraw { registry: x, registry2: y }),
        spec_decode_super(opcode_of(0xF, x, 3, 0)) == Ok::<SuperChipOpcode, UnkownOpCodeErr>(SuperChipOpcode::SetFontLarge { registry: x }),
        spec_decode_super(opcode_of(0xF, x, 7, 5)) == Ok::<SuperChipOpcode, UnkownOpCodeErr>(SuperChipOpcode::SaveToStorage { registry: x }),
        spec_decode_super(opcode_of(0xF, x, 8, 5)) == Ok::<SuperChipOpcode, UnkownOpCodeErr>(SuperChipOpcode::LoadFromStorage { registry: x }),
{
    lemma_nibbles(0, 0, 0xF, 0xF);
    lemma_nibbles(0, 0, 0xF, 0xE);
    lemma_nibbles(0, 0, 0xF, 0xB);
    lemma_nibbles(0, 0, 0xF, 0xC);
    lemma_nibbles(0, 0, 0xF, 0xD);
    lemma_nibbles(0, 0, 0xC, n);
    lemma_nibbles(0xD, x, y, 0);
    lemma_nibbles(0xF, x, 3, 0);
    lemma_nibbles(0xF, x, 7, 5);
    lemma_nibbles(0xF, x, 8, 5);
}

} // verus!
