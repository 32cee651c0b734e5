use vstd::prelude::*;

use crate::emulator::chip_emulator::{spec_load_font_small, ChipEmulator};
use crate::emulator::state::{
    display_dims, display_size_ok, increase_pc_ok, pop_stack_ok, push_stack_ok, set_v_ok,
    spec_increase_pc, spec_pop_stack, spec_push_stack, spec_set_index, spec_set_memory,
    spec_set_pc, spec_set_v, state_wf, zeros, EmuState, SoundCommand, MEMORY_SIZE,
};
use crate::emulator::traits::{Chip, Opcode};

verus! {

/// The CHIP-8 instruction set.
#[derive(Clone, Copy, Debug)]
pub enum Chip8Opcode {
    ///0x00E0
    ClearScreen,
    ///0x6
    LoadVRegistry { registry: u8, value: u8 },
    ///0xA
    LoadIndexRegistry(u16),
    ///0xD
    Draw { x: u8, y: u8, n: u8 },
    ///0x1
    Jump { address: u16 },
    ///0x7
    Add { registry: u8, value: u8 },
    ///0x3
    SkipIfEqValue { registry: u8, value: u8 },
    ///0x4
    SkipIfNotEqValue { registry: u8, value: u8 },
    ///0x5xy0
    SkipIfRegEq { registry: u8, registry2: u8 },
    ///0x9xy0
    SkipIfRegNotEq { registry: u8, registry2: u8 },
    ///0x2
    Call { address: u16 },
    ///0x00EE
    Return,
    ///8xy0
    SetRegEq { registry: u8, registry2: u8 },
    ///8xy1
    BitOr { registry: u8, registry2: u8 },
    ///8xy2
    BitAnd { registry: u8, registry2: u8 },
    ///8xy3
    BitXor { registry: u8, registry2: u8 },
    ///8xy4
    AddReg { registry: u8, registry2: u8 },
    ///8xy5
    SubReg { registry: u8, registry2: u8 },
    ///8xy6
    ShiftRight { registry: u8, registry2: u8 },
    ///8xy7
    SubRegYX { registry: u8, registry2: u8 },
    ///8xyE
    ShiftLeft { registry: u8, registry2: u8 },
    ///Fx65
    ///loads from memory starting from i into registries including max_registry
    LoadMemIntoRegs { max_registry: u8 },
    ///Fx55
    ///stores the registries 0..=max_registry in memory starting from i
    StoreRegsIntoMem { max_registry: u8 },
    ///Fx33
    ///store binary-coded decimal representation of vX to memory at i, i + 1 and i + 2
    StoreVXAsBinary { registry: u8 },
    ///Fx1E
    AddAssignI { registry: u8 },
    ///ExA1
    SkipIfNotPressed { registry: u8 },
    ///Ex9E
    SkipIfPressed { registry: u8 },
    ///Fx07
    PutDelayInRegX { registry: u8 },
    ///Fx15
    ///sets the delay timer to the value of the register
    SetDelayTimer { registry: u8 },
    ///Fx18
    ///sets the sound timer to the value of the register
    SetSoundTimer { registry: u8 },
    ///Fx0A
    ///waits for a key press then stores it in the registey
    WaitForKey { registry: u8 },
    ///0xB
    JumpPlusV0 { address: u16 },
    ///0xC
    Random { registry: u8, value: u8 },
    ///Fx29
    ///points the index register at the font sprite of the digit x
    GetFontStart { registry: u8 },
    ///0x0nnn
    JumpToSystemAddress { address: u16 },
}

/// An opcode that no instruction has.
#[derive(Debug)]
pub struct UnkownOpCodeErr(pub u16);

impl UnkownOpCodeErr {
    pub open spec fn spec_code(&self) -> u16 {
        self.0
    }

    /// The opcode that did not decode.
    pub fn code(&self) -> (code: u16)
        ensures
            code == self.spec_code(),
    {
        self.0
    }
}

/// The operator type: the highest nibble.
pub open spec fn nibble_t(opcode: u16) -> u16 {
    opcode / 4096
}

/// The `x` register: the second nibble.
pub open spec fn nibble_x(opcode: u16) -> u8 {
    ((opcode / 256) % 16) as u8
}

/// The `y` register: the third nibble.
pub open spec fn nibble_y(opcode: u16) -> u8 {
    ((opcode / 16) % 16) as u8
}

/// The lowest nibble.
pub open spec fn nibble_n(opcode: u16) -> u8 {
    (opcode % 16) as u8
}

/// The `kk` value: the low byte.
pub open spec fn low_byte(opcode: u16) -> u8 {
    (opcode % 256) as u8
}

/// The `nnn` address: the low twelve bits.
pub open spec fn low_address(opcode: u16) -> u16 {
    opcode % 4096
}

/// The CHIP-8 decoding table.
pub open spec fn spec_decode_chip8(opcode: u16) -> Result<Chip8Opcode, UnkownOpCodeErr> {
    let t = nibble_t(opcode);
    let registry = nibble_x(opcode);
    let registry2 = nibble_y(opcode);
    let n = nibble_n(opcode);
    let value = low_byte(opcode);
    let address = low_address(opcode);
    if t == 0x0 {
        if opcode == 0xE0 {
            Ok(Chip8Opcode::ClearScreen)
        } else if opcode == 0xEE {
            Ok(Chip8Opcode::Return)
        } else if opcode == 0 {
            Err(UnkownOpCodeErr(opcode))
        } else {
            Ok(Chip8Opcode::JumpToSystemAddress { address })
        }
    } else if t == 0x6 {
        Ok(Chip8Opcode::LoadVRegistry { registry, value })
    } else if t == 0xA {
        Ok(Chip8Opcode::LoadIndexRegistry(address))
    } else if t == 0xD {
        Ok(Chip8Opcode::Draw { x: registry, y: registry2, n })
    } else if t == 0x1 {
        Ok(Chip8Opcode::Jump { address })
    } else if t == 0x7 {
        Ok(Chip8Opcode::Add { registry, value })
    } else if t == 0x3 {
        Ok(Chip8Opcode::SkipIfEqValue { registry, value })
    } else if t == 0x4 {
        Ok(Chip8Opcode::SkipIfNotEqValue { registry, value })
    } else if t == 0x5 && n == 0 {
        Ok(Chip8Opcode::SkipIfRegEq { registry, registry2 })
    } else if t == 0x9 && n == 0 {
        Ok(Chip8Opcode::SkipIfRegNotEq { registry, registry2 })
    } else if t == 0x2 {
        Ok(Chip8Opcode::Call { address })
    } else if t == 0x8 && n == 0 {
        Ok(Chip8Opcode::SetRegEq { registry, registry2 })
    } else if t == 0x8 && n == 1 {
        Ok(Chip8Opcode::BitOr { registry, registry2 })
    } else if t == 0x8 && n == 2 {
        Ok(Chip8Opcode::BitAnd { registry, registry2 })
    } else if t == 0x8 && n == 3 {
        Ok(Chip8Opcode::BitXor { registry, registry2 })
    } else if t == 0x8 && n == 4 {
        Ok(Chip8Opcode::AddReg { registry, registry2 })
    } else if t == 0x8 && n == 5 {
        Ok(Chip8Opcode::SubReg { registry, registry2 })
    } else if t == 0x8 && n == 6 {
        Ok(Chip8Opcode::ShiftRight { registry, registry2 })
    } else if t == 0x8 && n == 7 {
        Ok(Chip8Opcode::SubRegYX { registry, registry2 })
    } else if t == 0x8 && n == 0xE {
        Ok(Chip8Opcode::ShiftLeft { registry, registry2 })
    } else if t == 0xF && registry2 == 6 && n == 5 {
        Ok(Chip8Opcode::LoadMemIntoRegs { max_registry: registry })
    } else if t == 0xF && registry2 == 5 && n == 5 {
        Ok(Chip8Opcode::StoreRegsIntoMem { max_registry: registry })
    } else if t == 0xF && registry2 == 3 && n == 3 {
        Ok(Chip8Opcode::StoreVXAsBinary { registry })
    } else if t == 0xF && registry2 == 1 && n == 0xE {
        Ok(Chip8Opcode::AddAssignI { registry })
    } else if t == 0xE && registry2 == 0xA && n == 1 {
        Ok(Chip8Opcode::SkipIfNotPressed { registry })
    } else if t == 0xE && registry2 == 9 && n == 0xE {
        Ok(Chip8Opcode::SkipIfPressed { registry })
    } else if t == 0xF && registry2 == 0 && n == 7 {
        Ok(Chip8Opcode::PutDelayInRegX { registry })
    } else if t == 0xF && registry2 == 1 && n == 5 {
        Ok(Chip8Opcode::SetDelayTimer { registry })
    } else if t == 0xF && registry2 == 0 && n == 0xA {
        Ok(Chip8Opcode::WaitForKey { registry })
    } else if t == 0xF && registry2 == 1 && n == 8 {
        Ok(Chip8Opcode::SetSoundTimer { registry })
    } else if t == 0xF && registry2 == 2 && n == 9 {
        Ok(Chip8Opcode::GetFontStart { registry })
    } else if t == 0xB {
        Ok(Chip8Opcode::JumpPlusV0 { address })
    } else if t == 0xC {
        Ok(Chip8Opcode::Random { registry, value })
    } else {
        Err(UnkownOpCodeErr(opcode))
    }
}

// ---------------------------------------------------------------------------------------------
// Instructions shared with the SUPER-CHIP set
// ---------------------------------------------------------------------------------------------

/// `set_registry` gets `shift_registry` shifted right by one; `VF` the bit shifted out.
pub open spec fn spec_rshift(s: EmuState, shift_registry: u8, set_registry: u8) -> EmuState {
    let value = s.v_registers[shift_registry as int];
    spec_set_v(spec_set_v(s, set_registry, value / 2), 0xF, value % 2)
}

/// `set_registry` gets `shift_registry` shifted left by one; `VF` the bit shifted out.
pub open spec fn spec_lshift(s: EmuState, shift_registry: u8, set_registry: u8) -> EmuState {
    let value = s.v_registers[shift_registry as int];
    spec_set_v(
        spec_set_v(s, set_registry, ((value * 2) % 256) as u8),
        0xF,
        if value >= 128 {
            1
        } else {
            0
        },
    )
}

pub open spec fn shift_ok(s: EmuState, shift_registry: u8, set_registry: u8) -> bool {
    shift_registry < 16 && set_v_ok(s, set_registry)
}

/// Registers `V0`..=`Vmax` get the memory from the index register on; the index register
/// then moves past them when `increase_i`.
pub open spec fn spec_load_mem_into_reg(s: EmuState, max_registry: u8, increase_i: bool) -> EmuState {
    let loaded = if s.has_memory_loaded {
        EmuState {
            v_registers: Seq::new(
                16,
                |j: int|
                    if j <= max_registry {
                        s.memory[s.index_register + j]
                    } else {
                        s.v_registers[j]
                    },
            ),
            ..s
        }
    } else {
        s
    };
    if increase_i {
        spec_set_index(loaded, (s.index_register + 1 + max_registry) as u16)
    } else {
        loaded
    }
}

pub open spec fn load_mem_ok(s: EmuState, max_registry: u8) -> bool {
    &&& s.index_register + max_registry < MEMORY_SIZE
    &&& set_v_ok(s, max_registry)
}

/// Registers `V0`..=`Vmax` are written to memory from the index register on; the index
/// register then moves past them when `increase_i`.
pub open spec fn spec_store_reg_into_mem(s: EmuState, max_registry: u8, increase_i: bool) -> EmuState {
    let stored = EmuState {
        memory: Seq::new(
            MEMORY_SIZE as nat,
            |a: int|
                if s.index_register <= a <= s.index_register + max_registry {
                    s.v_registers[a - s.index_register]
                } else {
                    s.memory[a]
                },
        ),
        ..s
    };
    if increase_i {
        spec_set_index(stored, (s.index_register + 1 + max_registry) as u16)
    } else {
        stored
    }
}

pub open spec fn store_reg_ok(s: EmuState, max_registry: u8) -> bool {
    &&& max_registry < 16
    &&& s.index_register + max_registry < MEMORY_SIZE
}

/// Bit `col` of a sprite row, counted from the most significant bit.
pub open spec fn sprite_bit(row: u8, col: int) -> bool {
    row & (0x80u8 >> (col as u8)) != 0
}

/// The sprite of `n` rows read from the index register on, drawn at (`vx`, `vy`), covers
/// pixel `i`. Sprites are clipped at the right and bottom edges.
pub open spec fn draw_hit(s: EmuState, vx: int, vy: int, n: int, i: int) -> bool {
    let w = display_dims(s.display.len()).0 as int;
    let h = display_dims(s.display.len()).1 as int;
    let px = i % w;
    let py = i / w;
    &&& vx <= px < vx + 8
    &&& vy <= py < vy + n
    &&& py < h
    &&& sprite_bit(s.memory[s.index_register + (py - vy)], px - vx)
}

/// The pixels after drawing: each covered pixel is flipped.
pub open spec fn drawn_display(s: EmuState, vx: int, vy: int, n: int) -> Seq<u8> {
    Seq::new(
        s.display.len(),
        |i: int|
            if draw_hit(s, vx, vy, n, i) {
                s.display[i] ^ 1
            } else {
                s.display[i]
            },
    )
}

/// Drawing the sprite turns off a pixel that was on.
pub open spec fn draw_collides(s: EmuState, vx: int, vy: int, n: int) -> bool {
    exists|i: int| 0 <= i < s.display.len() && draw_hit(s, vx, vy, n, i) && s.display[i] == 1
}

/// `Dxyn`: draws `n` sprite rows at (`Vx`, `Vy`) wrapped onto the screen; `VF` tells
/// whether a pixel was turned off.
pub open spec fn spec_draw(s: EmuState, x: u8, y: u8, n: u8) -> EmuState {
    let w = display_dims(s.display.len()).0 as int;
    let h = display_dims(s.display.len()).1 as int;
    let vx = s.v_registers[x as int] as int % w;
    let vy = s.v_registers[y as int] as int % h;
    let cleared = spec_set_v(s, 0xF, 0);
    let flagged = if draw_collides(s, vx, vy, n as int) {
        spec_set_v(cleared, 0xF, 1)
    } else {
        cleared
    };
    EmuState { display: drawn_display(s, vx, vy, n as int), draw_flag: true, ..flagged }
}

/// Every sprite row with a set bit, drawn from row `vy` on, lands on a row number that fits
/// in a byte.
pub open spec fn draw_rows_fit(s: EmuState, vy: int, n: int) -> bool {
    forall|r: int| 0 <= r < n && #[trigger] s.memory[s.index_register + r] != 0 ==> vy + r <= 255
}

/// A draw runs without a fault: the registers exist, the screen has a known size, the sprite
/// rows lie in memory, and the row number of every row that has a set bit fits in a byte.
pub open spec fn draw_ok(s: EmuState, x: u8, y: u8, n: u8) -> bool {
    let h = display_dims(s.display.len()).1 as int;
    &&& x < 16
    &&& y < 16
    &&& display_size_ok(s)
    &&& n == 0 || (s.index_register + n <= MEMORY_SIZE && draw_rows_fit(
        s,
        s.v_registers[y as int] as int % h,
        n as int,
    ))
}

/// The lowest key held down at or after `from`.
pub open spec fn first_pressed(keys: Seq<bool>, from: int) -> Option<u8>
    decreases 16 - from,
{
    if from < 0 || from >= 16 {
        None
    } else if keys[from] {
        Some(from as u8)
    } else {
        first_pressed(keys, from + 1)
    }
}

/// Skips the next instruction when `condition` holds.
pub open spec fn spec_skip_if(s: EmuState, condition: bool) -> (EmuState, bool) {
    (
        if condition {
            spec_increase_pc(s)
        } else {
            s
        },
        true,
    )
}

/// The three decimal digits of `value`.
pub open spec fn spec_store_bcd(s: EmuState, value: u8) -> EmuState {
    let i = s.index_register as int;
    let s1 = spec_set_memory(s, i, value / 100);
    let s2 = spec_set_memory(s1, i + 1, (value / 10) % 10);
    spec_set_memory(s2, i + 2, value % 10)
}

/// Waits for a key to be pressed and then released, then stores it in `registry`.
pub open spec fn spec_wait_for_key(s: EmuState, registry: u8) -> (EmuState, bool) {
    match s.active_key {
        None => (
            match first_pressed(s.keys, 0) {
                Some(k) => EmuState { active_key: Some(k), ..s },
                None => s,
            },
            false,
        ),
        Some(k) => if !s.keys[k as int] {
            (EmuState { active_key: None, ..spec_set_v(s, registry, k) }, true)
        } else {
            (s, false)
        },
    }
}

pub open spec fn wait_for_key_ok(s: EmuState, registry: u8) -> bool {
    match s.active_key {
        None => true,
        Some(k) => k < 16 && (s.keys[k as int] || set_v_ok(s, registry)),
    }
}

/// The effect of a CHIP-8 instruction, and whether the program counter then moves on.
pub open spec fn spec_execute_chip8(op: Chip8Opcode, s: EmuState, random: u8) -> (EmuState, bool) {
    let v = s.v_registers;
    match op {
        Chip8Opcode::ClearScreen => (
            EmuState { display: zeros(s.display.len()), draw_flag: true, ..s },
            true,
        ),
        Chip8Opcode::LoadVRegistry { registry, value } => (spec_set_v(s, registry, value), true),
        Chip8Opcode::LoadIndexRegistry(value) => (spec_set_index(s, value), true),
        Chip8Opcode::Draw { x, y, n } => (spec_draw(s, x, y, n), true),
        Chip8Opcode::Jump { address } => (spec_set_pc(s, address as usize), false),
        Chip8Opcode::JumpPlusV0 { address } => (
            spec_set_pc(s, (address + v[0]) as usize),
            false,
        ),
        Chip8Opcode::Add { registry, value } => (
            spec_set_v(s, registry, ((v[registry as int] + value) % 256) as u8),
            true,
        ),
        Chip8Opcode::SkipIfEqValue { registry, value } => spec_skip_if(
            s,
            v[registry as int] == value,
        ),
        Chip8Opcode::SkipIfNotEqValue { registry, value } => spec_skip_if(
            s,
            v[registry as int] != value,
        ),
        Chip8Opcode::SkipIfRegEq { registry, registry2 } => spec_skip_if(
            s,
            v[registry as int] == v[registry2 as int],
        ),
        Chip8Opcode::SkipIfRegNotEq { registry, registry2 } => spec_skip_if(
            s,
            v[registry as int] != v[registry2 as int],
        ),
        Chip8Opcode::Call { address } => (
            spec_set_pc(
                spec_push_stack(s, (s.program_counter + 2) as usize),
                address as usize,
            ),
            false,
        ),
        Chip8Opcode::Return => {
            let (t, value) = spec_pop_stack(s);
            (spec_set_pc(t, value), false)
        },
        Chip8Opcode::SetRegEq { registry, registry2 } => (
            spec_set_v(s, registry, v[registry2 as int]),
            true,
        ),
        Chip8Opcode::BitOr { registry, registry2 } => (
            spec_set_v(
                spec_set_v(s, registry, v[registry as int] | v[registry2 as int]),
                0xF,
                0,
            ),
            true,
        ),
        Chip8Opcode::BitAnd { registry, registry2 } => (
            spec_set_v(
                spec_set_v(s, registry, v[registry as int] & v[registry2 as int]),
                0xF,
                0,
            ),
            true,
        ),
        Chip8Opcode::BitXor { registry, registry2 } => (
            spec_set_v(
                spec_set_v(s, registry, v[registry as int] ^ v[registry2 as int]),
                0xF,
                0,
            ),
            true,
        ),
        Chip8Opcode::AddReg { registry, registry2 } => {
            let sum = v[registry as int] + v[registry2 as int];
            (
                spec_set_v(
                    spec_set_v(s, registry, (sum % 256) as u8),
                    0xF,
                    if sum > 255 {
                        1
                    } else {
                        0
                    },
                ),
                true,
            )
        },
        Chip8Opcode::SubReg { registry, registry2 } => {
            let a = v[registry as int];
            let b = v[registry2 as int];
            (
                spec_set_v(
                    spec_set_v(s, registry, ((a - b + 256) % 256) as u8),
                    0xF,
                    if a >= b {
                        1
                    } else {
                        0
                    },
                ),
                true,
            )
        },
        Chip8Opcode::ShiftRight { registry, registry2 } => (
            spec_rshift(s, registry2, registry),
            true,
        ),
        Chip8Opcode::ShiftLeft { registry, registry2 } => (
            spec_lshift(s, registry2, registry),
            true,
        ),
        Chip8Opcode::SubRegYX { registry, registry2 } => {
            let a = v[registry as int];
            let b = v[registry2 as int];
            (
                spec_set_v(
                    spec_set_v(s, registry, ((b - a + 256) % 256) as u8),
                    0xF,
                    if b >= a {
                        1
                    } else {
                        0
                    },
                ),
                true,
            )
        },
        Chip8Opcode::LoadMemIntoRegs { max_registry } => (
            spec_load_mem_into_reg(s, max_registry, true),
            true,
        ),
        Chip8Opcode::StoreRegsIntoMem { max_registry } => (
            spec_store_reg_into_mem(s, max_registry, true),
            true,
        ),
        Chip8Opcode::StoreVXAsBinary { registry } => (spec_store_bcd(s, v[registry as int]), true),
        Chip8Opcode::AddAssignI { registry } => (
            spec_set_index(s, (s.index_register + v[registry as int]) as u16),
            true,
        ),
        Chip8Opcode::SkipIfNotPressed { registry } => spec_skip_if(
            s,
            !s.keys[v[registry as int] as int],
        ),
        Chip8Opcode::SkipIfPressed { registry } => spec_skip_if(
            s,
            s.keys[v[registry as int] as int],
        ),
        Chip8Opcode::PutDelayInRegX { registry } => (
            spec_set_v(s, registry, s.delay_timer),
            true,
        ),
        Chip8Opcode::SetDelayTimer { registry } => (
            EmuState { delay_timer: v[registry as int], ..s },
            true,
        ),
        Chip8Opcode::WaitForKey { registry } => spec_wait_for_key(s, registry),
        Chip8Opcode::Random { registry, value } => (spec_set_v(s, registry, random & value), true),
        Chip8Opcode::SetSoundTimer { registry } => (
            EmuState {
                sound_timer: v[registry as int],
                sound_request: Some(SoundCommand::Play),
                ..s
            },
            true,
        ),
        Chip8Opcode::GetFontStart { registry } => {
            let with_font = if s.memory[0] != 0xF0 {
                spec_load_font_small(s)
            } else {
                s
            };
            (spec_set_index(with_font, (registry * 5) as u16), true)
        },
        Chip8Opcode::JumpToSystemAddress { address } => (s, true),
    }
}

/// A CHIP-8 instruction runs without a fault on `s`.
pub open spec fn spec_can_execute_chip8(op: Chip8Opcode, s: EmuState) -> bool {
    let v = s.v_registers;
    match op {
        Chip8Opcode::ClearScreen => true,
        Chip8Opcode::LoadVRegistry { registry, value } => set_v_ok(s, registry),
        Chip8Opcode::LoadIndexRegistry(value) => true,
        Chip8Opcode::Draw { x, y, n } => draw_ok(s, x, y, n),
        Chip8Opcode::Jump { address } => true,
        Chip8Opcode::JumpPlusV0 { address } => true,
        Chip8Opcode::Add { registry, value } => registry < 16,
        Chip8Opcode::SkipIfEqValue { registry, value } => registry < 16 && increase_pc_ok(s),
        Chip8Opcode::SkipIfNotEqValue { registry, value } => registry < 16 && increase_pc_ok(s),
        Chip8Opcode::SkipIfRegEq { registry, registry2 } => registry < 16 && registry2 < 16
            && increase_pc_ok(s),
        Chip8Opcode::SkipIfRegNotEq { registry, registry2 } => registry < 16 && registry2 < 16
            && increase_pc_ok(s),
        Chip8Opcode::Call { address } => s.program_counter <= usize::MAX - 2 && push_stack_ok(s),
        Chip8Opcode::Return => pop_stack_ok(s),
        Chip8Opcode::SetRegEq { registry, registry2 } => registry2 < 16 && set_v_ok(s, registry),
        Chip8Opcode::BitOr { registry, registry2 } => registry < 16 && registry2 < 16,
        Chip8Opcode::BitAnd { registry, registry2 } => registry < 16 && registry2 < 16,
        Chip8Opcode::BitXor { registry, registry2 } => registry < 16 && registry2 < 16,
        Chip8Opcode::AddReg { registry, registry2 } => registry < 16 && registry2 < 16,
        Chip8Opcode::SubReg { registry, registry2 } => registry < 16 && registry2 < 16,
        Chip8Opcode::ShiftRight { registry, registry2 } => shift_ok(s, registry2, registry),
        Chip8Opcode::ShiftLeft { registry, registry2 } => shift_ok(s, registry2, registry),
        Chip8Opcode::SubRegYX { registry, registry2 } => registry < 16 && registry2 < 16,
        Chip8Opcode::LoadMemIntoRegs { max_registry } => load_mem_ok(s, max_registry),
        Chip8Opcode::StoreRegsIntoMem { max_registry } => store_reg_ok(s, max_registry),
        Chip8Opcode::StoreVXAsBinary { registry } => registry < 16 && s.index_register + 2
            < MEMORY_SIZE,
        Chip8Opcode::AddAssignI { registry } => registry < 16 && s.index_register
            + v[registry as int] <= u16::MAX,
        Chip8Opcode::SkipIfNotPressed { registry } => registry < 16 && v[registry as int] < 16
            && increase_pc_ok(s),
        Chip8Opcode::SkipIfPressed { registry } => registry < 16 && v[registry as int] < 16
            && increase_pc_ok(s),
        Chip8Opcode::PutDelayInRegX { registry } => set_v_ok(s, registry),
        Chip8Opcode::SetDelayTimer { registry } => registry < 16,
        Chip8Opcode::WaitForKey { registry } => wait_for_key_ok(s, registry),
        Chip8Opcode::Random { registry, value } => set_v_ok(s, registry),
        Chip8Opcode::SetSoundTimer { registry } => registry < 16,
        Chip8Opcode::GetFontStart { registry } => true,
        Chip8Opcode::JumpToSystemAddress { address } => true,
    }
}


// ---------------------------------------------------------------------------------------------
// Drawing
// ---------------------------------------------------------------------------------------------

/// Pixel `i` is covered by the sprite and comes before row `r`, column `c` of the sprite.
pub open spec fn draw_hit_before(s: EmuState, vx: int, vy: int, n: int, i: int, r: int, c: int) -> bool {
    let w = display_dims(s.display.len()).0 as int;
    &&& draw_hit(s, vx, vy, n, i)
    &&& (i / w - vy < r || (i / w - vy == r && i % w - vx < c))
}

/// The state part way through a draw: the sprite pixels before row `r`, column `c` are done.
pub open spec fn draw_progress(s: EmuState, vx: int, vy: int, n: int, r: int, c: int) -> EmuState {
    let cleared = spec_set_v(s, 0xF, 0);
    let collided = exists|i: int|
        0 <= i < s.display.len() && draw_hit_before(s, vx, vy, n, i, r, c) && s.display[i] == 1;
    let flagged = if collided {
        spec_set_v(cleared, 0xF, 1)
    } else {
        cleared
    };
    EmuState {
        display: Seq::new(
            s.display.len(),
            |i: int|
                if draw_hit_before(s, vx, vy, n, i, r, c) {
                    s.display[i] ^ 1
                } else {
                    s.display[i]
                },
        ),
        ..flagged
    }
}

/// The pixel at (`px`, `py`) of a screen `w` pixels wide has index `px + py * w`, and every
/// pixel index splits that way.
pub proof fn lemma_pixel_index(w: int, px: int, py: int, i: int)
    requires
        w > 0,
        0 <= px < w,
        0 <= py,
        0 <= i,
    ensures
        (px + py * w) % w == px,
        (px + py * w) / w == py,
        i == i % w + (i / w) * w,
        0 <= i % w < w,
{
    vstd::arithmetic::div_mod::lemma_fundamental_div_mod_converse(px + py * w, w, py, px);
    vstd::arithmetic::div_mod::lemma_fundamental_div_mod(i, w);
    vstd::arithmetic::mul::lemma_mul_is_commutative(w, i / w);
    vstd::arithmetic::div_mod::lemma_mod_bound(i, w);
}

/// One sprite pixel of a draw: from (`r`, `c`) to (`r`, `c + 1`).
proof fn lemma_draw_step(s: EmuState, vx: int, vy: int, n: int, r: int, c: int)
    requires
        state_wf(s),
        display_size_ok(s),
        0 <= vx < display_dims(s.display.len()).0,
        0 <= vy < display_dims(s.display.len()).1,
        0 <= r < n,
        0 <= c < 8,
        s.index_register + n <= MEMORY_SIZE,
    ensures
        ({
            let w = display_dims(s.display.len()).0 as int;
            let h = display_dims(s.display.len()).1 as int;
            let px = vx + c;
            let py = vy + r;
            let idx = px + py * w;
            if sprite_bit(s.memory[s.index_register + r], c) && px < w && py < h {
                &&& 0 <= idx < s.display.len()
                &&& draw_hit(s, vx, vy, n, idx)
                &&& !draw_hit_before(s, vx, vy, n, idx, r, c)
                &&& forall|i: int|
                    0 <= i < s.display.len() ==> (#[trigger] draw_hit_before(s, vx, vy, n, i, r, c + 1)
                        <==> (draw_hit_before(s, vx, vy, n, i, r, c) || i == idx))
            } else {
                forall|i: int|
                    0 <= i < s.display.len() ==> (#[trigger] draw_hit_before(s, vx, vy, n, i, r, c + 1)
                        <==> draw_hit_before(s, vx, vy, n, i, r, c))
            }
        }),
{
    let w = display_dims(s.display.len()).0 as int;
    let h = display_dims(s.display.len()).1 as int;
    let px = vx + c;
    let py = vy + r;
    let idx = px + py * w;
    assert(w * h == s.display.len()) by {
        if s.display.len() == 2048 {
            assert(w == 64 && h == 32);
        } else {
            assert(w == 128 && h == 64);
        }
    }
    if px < w && py < h {
        lemma_pixel_index(w, px, py, 0);
        assert(idx < s.display.len()) by (nonlinear_arith)
            requires
                0 <= px < w,
                0 <= py < h,
                idx == px + py * w,
                w * h == s.display.len(),
        ;
    }
    assert forall|i: int| 0 <= i < s.display.len() implies (draw_hit_before(
        s,
        vx,
        vy,
        n,
        i,
        r,
        c + 1,
    ) <==> (draw_hit_before(s, vx, vy, n, i, r, c) || (draw_hit(s, vx, vy, n, i) && i / w - vy == r
        && i % w - vx == c))) by {
    }
    assert forall|i: int|
        0 <= i < s.display.len() && #[trigger] draw_hit(s, vx, vy, n, i) && i / w - vy == r && i % w
            - vx == c implies i == idx by {
        lemma_pixel_index(w, 0, 0, i);
    }
    if sprite_bit(s.memory[s.index_register + r], c) && px < w && py < h {
        lemma_pixel_index(w, px, py, 0);
    }
}

/// Row `r` of a draw is done once its eight columns are.
proof fn lemma_draw_row_end(s: EmuState, vx: int, vy: int, n: int, r: int)
    requires
        display_size_ok(s),
    ensures
        draw_progress(s, vx, vy, n, r, 8) == draw_progress(s, vx, vy, n, r + 1, 0),
{
    assert forall|i: int| 0 <= i < s.display.len() implies (draw_hit_before(s, vx, vy, n, i, r, 8)
        <==> draw_hit_before(s, vx, vy, n, i, r + 1, 0)) by {
    }
    assert(draw_progress(s, vx, vy, n, r, 8).display =~= draw_progress(
        s,
        vx,
        vy,
        n,
        r + 1,
        0,
    ).display);
}

/// Whether every sprite row with a set bit, drawn from row `vy` on, lands on a row number
/// that fits in a byte.
fn draw_rows_fit_in<C: Chip>(emu: &ChipEmulator<C>, vy: u8, n: u8) -> (ok: bool)
    requires
        emu@.index_register + n <= MEMORY_SIZE,
    ensures
        ok == draw_rows_fit(emu@, vy as int, n as int),
{
    let mut r: u8 = 0;
    while r < n
        invariant
            r <= n,
            emu@.index_register + n <= MEMORY_SIZE,
            draw_rows_fit(emu@, vy as int, r as int),
        decreases n - r,
    {
        let row = emu.get_memory(emu.get_index_register() + r as u16);
        if row != 0 && vy as u16 + r as u16 > 255 {
            return false;
        }
        r = r + 1;
    }
    true
}

/// `Dxyn`: draws `n` rows of the sprite at the index register at (`Vx`, `Vy`).
pub fn opcode_draw<C: Chip>(emu: &mut ChipEmulator<C>, x: u8, y: u8, n: u8)
    requires
        draw_ok(old(emu)@, x, y, n),
    ensures
        final(emu)@ == spec_draw(old(emu)@, x, y, n),
{
    let ghost s = emu@;
    proof {
        emu.lemma_wf();
    }
    let (width, height) = emu.get_display_size();
    let vx = emu.get_v(x) % (width as u8);
    let vy = emu.get_v(y) % (height as u8);
    let ghost gvx = vx as int;
    let ghost gvy = vy as int;
    let ghost gn = n as int;
    emu.set_v(0xF, 0);
    proof {
        assert(emu@.display =~= draw_progress(s, gvx, gvy, gn, 0, 0).display);
        assert(emu@ =~= draw_progress(s, gvx, gvy, gn, 0, 0));
    }
    let mut row: u8 = 0;
    while row < n
        invariant
            state_wf(s),
            draw_ok(s, x, y, n),
            0 <= row <= n,
            (width, height) == display_dims(s.display.len()),
            vx < width,
            vy < height,
            gvx == vx,
            gvy == vy,
            gn == n,
            vy as int == s.v_registers[y as int] as int % (height as int),
            emu@ == draw_progress(s, gvx, gvy, gn, row as int, 0),
        decreases n - row,
    {
        let pixel = emu.get_memory(emu.get_index_register() + row as u16);
        let mut col: u8 = 0;
        while col < 8
            invariant
                state_wf(s),
                draw_ok(s, x, y, n),
                0 <= row < n,
                0 <= col <= 8,
                (width, height) == display_dims(s.display.len()),
                vx < width,
                vy < height,
                gvx == vx,
                gvy == vy,
                gn == n,
                vy as int == s.v_registers[y as int] as int % (height as int),
                pixel == s.memory[s.index_register + row],
                emu@ == draw_progress(s, gvx, gvy, gn, row as int, col as int),
            decreases 8 - col,
        {
            proof {
                lemma_draw_step(s, gvx, gvy, gn, row as int, col as int);
            }
            let ghost before = emu@;
            if pixel & (0x80u8 >> col) != 0 {
                assert(pixel != 0) by {
                    assert(pixel == 0 ==> pixel & (0x80u8 >> col) == 0) by (bit_vector);
                }
                let x_coord = (vx + col) as usize;
                let y_coord = (vy + row) as usize;
                if x_coord < width && y_coord < height {
                    assert(y_coord * width <= 63 * 128) by (nonlinear_arith)
                        requires
                            y_coord < height,
                            (width == 64 && height == 32) || (width == 128 && height == 64),
                    ;
                    let idx = x_coord + y_coord * width;
                    if idx < emu.get_display().len() {
                        let ghost collided_before = exists|i: int|
                            0 <= i < s.display.len() && draw_hit_before(
                                s,
                                gvx,
                                gvy,
                                gn,
                                i,
                                row as int,
                                col as int,
                            ) && s.display[i] == 1;
                        let current = emu.get_display()[idx];
                        if current == 1 {
                            emu.set_v(0xF, 1);
                        }
                        emu.set_pixel(idx, current ^ 1);
                        proof {
                            let next = draw_progress(s, gvx, gvy, gn, row as int, col + 1);
                            assert(current == s.display[idx as int]);
                            assert(emu@.display =~= next.display);
                            if current == 1 {
                                assert(draw_hit_before(s, gvx, gvy, gn, idx as int, row as int, col + 1));
                            } else {
                                if collided_before {
                                    let j = choose|i: int|
                                        0 <= i < s.display.len() && draw_hit_before(
                                            s,
                                            gvx,
                                            gvy,
                                            gn,
                                            i,
                                            row as int,
                                            col as int,
                                        ) && s.display[i] == 1;
                                    assert(draw_hit_before(s, gvx, gvy, gn, j, row as int, col + 1));
                                }
                            }
                            assert(emu@.v_registers =~= next.v_registers);
                            assert(emu@ =~= next);
                        }
                    }
                }
            }
            proof {
                let next = draw_progress(s, gvx, gvy, gn, row as int, col + 1);
                if !(sprite_bit(s.memory[s.index_register + row], col as int) && vx + col < width
                    && vy + row < height) {
                    assert(emu@.display =~= next.display);
                    assert(emu@ =~= next);
                }
            }
            col = col + 1;
        }
        proof {
            lemma_draw_row_end(s, gvx, gvy, gn, row as int);
        }
        row = row + 1;
    }
    proof {
        let w = width as int;
        let done = draw_progress(s, gvx, gvy, gn, gn, 0);
        assert forall|i: int| 0 <= i < s.display.len() implies (draw_hit_before(
            s,
            gvx,
            gvy,
            gn,
            i,
            gn,
            0,
        ) <==> draw_hit(s, gvx, gvy, gn, i)) by {
        }
        assert(done.display =~= drawn_display(s, gvx, gvy, gn));
    }
    emu.set_draw_flag(true);
    proof {
        assert(emu@ =~= spec_draw(s, x, y, n));
    }
}


// ---------------------------------------------------------------------------------------------
// Instructions shared with the SUPER-CHIP set
// ---------------------------------------------------------------------------------------------

/// `8xy6`: `set_registry` gets `shift_registry` shifted right; `VF` the bit shifted out.
pub fn opcode_rshift<C: Chip>(emu: &mut ChipEmulator<C>, shift_registry: u8, set_registry: u8)
    requires
        shift_ok(old(emu)@, shift_registry, set_registry),
    ensures
        final(emu)@ == spec_rshift(old(emu)@, shift_registry, set_registry),
{
    let value = emu.get_v(shift_registry);
    emu.set_v(set_registry, value / 2);
    emu.set_v(0xF, value % 2);
}

/// `8xyE`: `set_registry` gets `shift_registry` shifted left; `VF` the bit shifted out.
pub fn opcode_lshift<C: Chip>(emu: &mut ChipEmulator<C>, shift_registry: u8, set_registry: u8)
    requires
        shift_ok(old(emu)@, shift_registry, set_registry),
    ensures
        final(emu)@ == spec_lshift(old(emu)@, shift_registry, set_registry),
{
    let value = emu.get_v(shift_registry);
    emu.set_v(set_registry, ((value as u16 * 2) % 256) as u8);
    if value >= 128 {
        emu.set_v(0xF, 1);
    } else {
        emu.set_v(0xF, 0);
    }
}

/// `Fx65`: loads `V0`..=`Vmax` from memory at the index register.
pub fn opcode_load_mem_into_reg<C: Chip>(
    emu: &mut ChipEmulator<C>,
    max_registry: u8,
    increase_i: bool,
)
    requires
        load_mem_ok(old(emu)@, max_registry),
    ensures
        final(emu)@ == spec_load_mem_into_reg(old(emu)@, max_registry, increase_i),
{
    let ghost s = emu@;
    proof {
        emu.lemma_wf();
    }
    let mut i: u16 = 0;
    while i <= max_registry as u16
        invariant
            state_wf(s),
            load_mem_ok(s, max_registry),
            i <= max_registry + 1,
            emu@ == (if s.has_memory_loaded {
                EmuState {
                    v_registers: Seq::new(
                        16,
                        |j: int|
                            if j < i {
                                s.memory[s.index_register + j]
                            } else {
                                s.v_registers[j]
                            },
                    ),
                    ..s
                }
            } else {
                s
            }),
        decreases max_registry + 1 - i,
    {
        let mem = emu.get_memory(emu.get_index_register() + i);
        emu.set_v(i as u8, mem);
        i = i + 1;
        proof {
            if s.has_memory_loaded {
                assert(emu@.v_registers =~= Seq::new(
                    16,
                    |j: int|
                        if j < i {
                            s.memory[s.index_register + j]
                        } else {
                            s.v_registers[j]
                        },
                ));
            }
        }
    }
    proof {
        if s.has_memory_loaded {
            assert(emu@.v_registers =~= spec_load_mem_into_reg(s, max_registry, false).v_registers);
        }
    }
    if increase_i {
        emu.set_index_register(emu.get_index_register() + 1 + max_registry as u16);
    }
}

/// `Fx55`: stores `V0`..=`Vmax` in memory at the index register.
pub fn opcode_store_reg_into_mem<C: Chip>(
    emu: &mut ChipEmulator<C>,
    max_registry: u8,
    increase_i: bool,
)
    requires
        store_reg_ok(old(emu)@, max_registry),
    ensures
        final(emu)@ == spec_store_reg_into_mem(old(emu)@, max_registry, increase_i),
{
    let ghost s = emu@;
    proof {
        emu.lemma_wf();
    }
    let mut i: u8 = 0;
    while i <= max_registry
        invariant
            state_wf(s),
            store_reg_ok(s, max_registry),
            i <= max_registry + 1,
            emu@ == (EmuState {
                memory: Seq::new(
                    MEMORY_SIZE as nat,
                    |a: int|
                        if s.index_register <= a < s.index_register + i {
                            s.v_registers[a - s.index_register]
                        } else {
                            s.memory[a]
                        },
                ),
                ..s
            }),
        decreases max_registry + 1 - i,
    {
        let v = emu.get_v(i);
        emu.set_memory(emu.get_index_register() as usize + i as usize, v);
        i = i + 1;
        proof {
            assert(emu@.memory =~= Seq::new(
                MEMORY_SIZE as nat,
                |a: int|
                    if s.index_register <= a < s.index_register + i {
                        s.v_registers[a - s.index_register]
                    } else {
                        s.memory[a]
                    },
            ));
        }
    }
    proof {
        assert(emu@.memory =~= spec_store_reg_into_mem(s, max_registry, false).memory);
    }
    if increase_i {
        emu.set_index_register(emu.get_index_register() + 1 + max_registry as u16);
    }
}

/// The lowest key held down.
fn first_pressed_key(keys: &[bool; 16]) -> (key: Option<u8>)
    ensures
        key == first_pressed(keys@, 0),
{
    let mut i: usize = 0;
    while i < 16
        invariant
            i <= 16,
            first_pressed(keys@, 0) == first_pressed(keys@, i as int),
        decreases 16 - i,
    {
        if keys[i] {
            return Some(i as u8);
        }
        i = i + 1;
    }
    None
}

/// Blanks every pixel.
fn clear_display<C: Chip>(emu: &mut ChipEmulator<C>)
    ensures
        final(emu)@ == (EmuState { display: zeros(old(emu)@.display.len()), ..old(emu)@ }),
{
    let ghost s = emu@;
    let len = emu.get_display().len();
    let mut i: usize = 0;
    while i < len
        invariant
            i <= len == s.display.len(),
            emu@ == (EmuState {
                display: Seq::new(
                    s.display.len(),
                    |j: int|
                        if j < i {
                            0u8
                        } else {
                            s.display[j]
                        },
                ),
                ..s
            }),
        decreases len - i,
    {
        emu.set_pixel(i, 0);
        i = i + 1;
        proof {
            assert(emu@.display =~= Seq::new(
                s.display.len(),
                |j: int|
                    if j < i {
                        0u8
                    } else {
                        s.display[j]
                    },
            ));
        }
    }
    proof {
        assert(emu@.display =~= zeros(s.display.len()));
    }
}

impl Opcode for Chip8Opcode {
    open spec fn spec_decode(opcode: u16) -> Result<Self, UnkownOpCodeErr> {
        spec_decode_chip8(opcode)
    }

    open spec fn spec_useless() -> Self {
        Chip8Opcode::Add { registry: 0, value: 0 }
    }

    open spec fn spec_can_execute(self, s: EmuState) -> bool {
        spec_can_execute_chip8(self, s)
    }

    open spec fn spec_execute(self, s: EmuState, random: u8) -> (EmuState, bool) {
        spec_execute_chip8(self, s, random)
    }

    fn decode(opcode: u16) -> (op: Result<Self, UnkownOpCodeErr>) {
        //gets the any memory address if it has one
        // nnn
        let address = opcode % 4096;
        //gets the registry number
        let registry = ((opcode / 256) % 16) as u8;
        //gets the value
        // kk
        let value = (opcode % 256) as u8;
        //y
        let registry2 = ((opcode / 16) % 16) as u8;
        let n = (opcode % 16) as u8;
        let operator_type = opcode / 4096;
        if operator_type == 0x0 {
            if opcode == 0xE0 {
                Ok(Self::ClearScreen)
            } else if opcode == 0xEE {
                Ok(Self::Return)
            } else if opcode == 0 {
                //this is a blank address
                Err(UnkownOpCodeErr(opcode))
            } else {
                Ok(Self::JumpToSystemAddress { address })
            }
        } else if operator_type == 0x6 {
            Ok(Self::LoadVRegistry { registry, value })
        } else if operator_type == 0xA {
            Ok(Self::LoadIndexRegistry(address))
        } else if operator_type == 0xD {
            Ok(Self::Draw { x: registry, y: registry2, n })
        } else if operator_type == 0x1 {
            Ok(Self::Jump { address })
        } else if operator_type == 0x7 {
            Ok(Self::Add { registry, value })
        } else if operator_type == 0x3 {
            Ok(Self::SkipIfEqValue { registry, value })
        } else if operator_type == 0x4 {
            Ok(Self::SkipIfNotEqValue { registry, value })
        } else if operator_type == 0x5 && n == 0 {
            Ok(Self::SkipIfRegEq { registry, registry2 })
        } else if operator_type == 0x9 && n == 0 {
            Ok(Self::SkipIfRegNotEq { registry, registry2 })
        } else if operator_type == 0x2 {
            Ok(Self::Call { address })
        } else if operator_type == 0x8 && n == 0 {
            Ok(Self::SetRegEq { registry, registry2 })
        } else if operator_type == 0x8 && n == 1 {
            Ok(Self::BitOr { registry, registry2 })
        } else if operator_type == 0x8 && n == 2 {
            Ok(Self::BitAnd { registry, registry2 })
        } else if operator_type == 0x8 && n == 3 {
            Ok(Self::BitXor { registry, registry2 })
        } else if operator_type == 0x8 && n == 4 {
            Ok(Self::AddReg { registry, registry2 })
        } else if operator_type == 0x8 && n == 5 {
            Ok(Self::SubReg { registry, registry2 })
        } else if operator_type == 0x8 && n == 6 {
            Ok(Self::ShiftRight { registry, registry2 })
        } else if operator_type == 0x8 && n == 7 {
            Ok(Self::SubRegYX { registry, registry2 })
        } else if operator_type == 0x8 && n == 0xE {
            Ok(Self::ShiftLeft { registry, registry2 })
        } else if operator_type == 0xF && registry2 == 6 && n == 5 {
            Ok(Self::LoadMemIntoRegs { max_registry: registry })
        } else if operator_type == 0xF && registry2 == 5 && n == 5 {
            Ok(Self::StoreRegsIntoMem { max_registry: registry })
        } else if operator_type == 0xF && registry2 == 3 && n == 3 {
            Ok(Self::StoreVXAsBinary { registry })
        } else if operator_type == 0xF && registry2 == 1 && n == 0xE {
            Ok(Self::AddAssignI { registry })
        } else if operator_type == 0xE && registry2 == 0xA && n == 1 {
            Ok(Self::SkipIfNotPressed { registry })
        } else if operator_type == 0xE && registry2 == 9 && n == 0xE {
            Ok(Self::SkipIfPressed { registry })
        } else if operator_type == 0xF && registry2 == 0 && n == 7 {
            Ok(Self::PutDelayInRegX { registry })
        } else if operator_type == 0xF && registry2 == 1 && n == 5 {
            Ok(Self::SetDelayTimer { registry })
        } else if operator_type == 0xF && registry2 == 0 && n == 0xA {
            Ok(Self::WaitForKey { registry })
        } else if operator_type == 0xF && registry2 == 1 && n == 8 {
            Ok(Self::SetSoundTimer { registry })
        } else if operator_type == 0xF && registry2 == 2 && n == 9 {
            Ok(Self::GetFontStart { registry })
        } else if operator_type == 0xB {
            Ok(Self::JumpPlusV0 { address })
        } else if operator_type == 0xC {
            Ok(Self::Random { registry, value })
        } else {
            Err(UnkownOpCodeErr(opcode))
        }
    }

    fn useless_opcode() -> (op: Self) {
        Self::Add { registry: 0, value: 0 }
    }

    open spec fn spec_needs_entropy(&self) -> bool {
        *self is Random
    }

    proof fn lemma_entropy_unused(self, s: EmuState, random: u8) {
    }

    fn needs_entropy(&self) -> (needs: bool) {
        match self {
            Chip8Opcode::Random { .. } => true,
            _ => false,
        }
    }

    fn can_execute<C: Chip>(&self, emu: &ChipEmulator<C>) -> (ok: bool) {
        proof {
            emu.lemma_wf();
        }
        let loaded = emu.has_memory_loaded();
        match *self {
            Chip8Opcode::ClearScreen => true,
            Chip8Opcode::LoadVRegistry { registry, value } => !loaded || registry < 16,
            Chip8Opcode::LoadIndexRegistry(value) => true,
            Chip8Opcode::Draw { x, y, n } => {
                let len = emu.get_display().len();
                if x < 16 && y < 16 && (len == 2048 || len == 8192) {
                    let height: u8 = if len == 2048 {
                        32
                    } else {
                        64
                    };
                    n == 0 || (emu.get_index_register() as usize + n as usize <= MEMORY_SIZE
                        && draw_rows_fit_in(emu, emu.get_v(y) % height, n))
                } else {
                    false
                }
            },
            Chip8Opcode::Jump { address } => true,
            Chip8Opcode::JumpPlusV0 { address } => true,
            Chip8Opcode::Add { registry, value } => registry < 16,
            Chip8Opcode::SkipIfEqValue { registry, value } => registry < 16 && emu.can_increase_program_counter(),
            Chip8Opcode::SkipIfNotEqValue { registry, value } => registry < 16 && emu.can_increase_program_counter(),
            Chip8Opcode::SkipIfRegEq { registry, registry2 } => registry < 16 && registry2 < 16
                && emu.can_increase_program_counter(),
            Chip8Opcode::SkipIfRegNotEq { registry, registry2 } => registry < 16 && registry2 < 16
                && emu.can_increase_program_counter(),
            Chip8Opcode::Call { address } => emu.get_program_counter() <= usize::MAX - 2
                && emu.get_stack_pointer() != 16,
            Chip8Opcode::Return => 1 <= emu.get_stack_pointer() && emu.get_stack_pointer() <= 16,
            Chip8Opcode::SetRegEq { registry, registry2 } => registry2 < 16 && (!loaded || registry < 16),
            Chip8Opcode::BitOr { registry, registry2 } => registry < 16 && registry2 < 16,
            Chip8Opcode::BitAnd { registry, registry2 } => registry < 16 && registry2 < 16,
            Chip8Opcode::BitXor { registry, registry2 } => registry < 16 && registry2 < 16,
            Chip8Opcode::AddReg { registry, registry2 } => registry < 16 && registry2 < 16,
            Chip8Opcode::SubReg { registry, registry2 } => registry < 16 && registry2 < 16,
            Chip8Opcode::ShiftRight { registry, registry2 } => registry2 < 16 && (!loaded || registry < 16),
            Chip8Opcode::ShiftLeft { registry, registry2 } => registry2 < 16 && (!loaded || registry < 16),
            Chip8Opcode::SubRegYX { registry, registry2 } => registry < 16 && registry2 < 16,
            Chip8Opcode::LoadMemIntoRegs { max_registry } => (emu.get_index_register() as usize
                + max_registry as usize) < MEMORY_SIZE && (!loaded || max_registry < 16),
            Chip8Opcode::StoreRegsIntoMem { max_registry } => max_registry < 16
                && (emu.get_index_register() as usize + max_registry as usize) < MEMORY_SIZE,
            Chip8Opcode::StoreVXAsBinary { registry } => registry < 16
                && (emu.get_index_register() as usize + 2) < MEMORY_SIZE,
            Chip8Opcode::AddAssignI { registry } => registry < 16 && emu.get_index_register() as u32
                + emu.get_v(registry) as u32 <= u16::MAX as u32,
            Chip8Opcode::SkipIfNotPressed { registry } => registry < 16 && emu.get_v(registry) < 16
                && emu.can_increase_program_counter(),
            Chip8Opcode::SkipIfPressed { registry } => registry < 16 && emu.get_v(registry) < 16
                && emu.can_increase_program_counter(),
            Chip8Opcode::PutDelayInRegX { registry } => !loaded || registry < 16,
            Chip8Opcode::SetDelayTimer { registry } => registry < 16,
            Chip8Opcode::WaitForKey { registry } => match emu.get_active_key() {
                None => true,
                Some(k) => k < 16 && (emu.get_key(k as usize) || !loaded || registry < 16),
            },
            Chip8Opcode::Random { registry, value } => !loaded || registry < 16,
            Chip8Opcode::SetSoundTimer { registry } => registry < 16,
            Chip8Opcode::GetFontStart { registry } => true,
            Chip8Opcode::JumpToSystemAddress { address } => true,
        }
    }

    fn execute_opcode<C: Chip>(self, emu: &mut ChipEmulator<C>, random: u8) -> (increase: bool) {
        //this is for the few opcodes that dont want the program counter to increase normally
        proof {
            emu.lemma_wf();
        }
        match self {
            Chip8Opcode::ClearScreen => {
                clear_display(emu);
                emu.set_draw_flag(true);
                true
            },
            Chip8Opcode::LoadVRegistry { registry, value } => {
                emu.set_v(registry, value);
                true
            },
            Chip8Opcode::LoadIndexRegistry(value) => {
                emu.set_index_register(value);
                true
            },
            Chip8Opcode::Draw { x, y, n } => {
                opcode_draw(emu, x, y, n);
                true
            },
            Chip8Opcode::Jump { address } => {
                emu.set_program_counter(address as usize);
                false
            },
            Chip8Opcode::JumpPlusV0 { address } => {
                let target = address as usize + emu.get_v(0) as usize;
                emu.set_program_counter(target);
                false
            },
            Chip8Opcode::Add { registry, value } => {
                let sum = ((emu.get_v(registry) as u16 + value as u16) % 256) as u8;
                emu.set_v(registry, sum);
                true
            },
            Chip8Opcode::SkipIfEqValue { registry, value } => {
                if emu.get_v(registry) == value {
                    emu.increase_program_counter();
                }
                true
            },
            Chip8Opcode::SkipIfNotEqValue { registry, value } => {
                if emu.get_v(registry) != value {
                    emu.increase_program_counter();
                }
                true
            },
            Chip8Opcode::SkipIfRegEq { registry, registry2 } => {
                if emu.get_v(registry) == emu.get_v(registry2) {
                    emu.increase_program_counter();
                }
                true
            },
            Chip8Opcode::SkipIfRegNotEq { registry, registry2 } => {
                if emu.get_v(registry) != emu.get_v(registry2) {
                    emu.increase_program_counter();
                }
                true
            },
            Chip8Opcode::Call { address } => {
                let return_address = emu.get_program_counter() + 2;
                emu.push_stack(return_address);
                emu.set_program_counter(address as usize);
                false
            },
            Chip8Opcode::Return => {
                let value = emu.pop_stack();
                emu.set_program_counter(value);
                false
            },
            Chip8Opcode::SetRegEq { registry, registry2 } => {
                let value = emu.get_v(registry2);
                emu.set_v(registry, value);
                true
            },
            Chip8Opcode::BitOr { registry, registry2 } => {
                let value = emu.get_v(registry) | emu.get_v(registry2);
                emu.set_v(registry, value);
                emu.set_v(0xF, 0);
                true
            },
            Chip8Opcode::BitAnd { registry, registry2 } => {
                let value = emu.get_v(registry) & emu.get_v(registry2);
                emu.set_v(registry, value);
                emu.set_v(0xF, 0);
                true
            },
            Chip8Opcode::BitXor { registry, registry2 } => {
                let value = emu.get_v(registry) ^ emu.get_v(registry2);
                emu.set_v(registry, value);
                emu.set_v(0xF, 0);
                true
            },
            Chip8Opcode::AddReg { registry, registry2 } => {
                let sum = emu.get_v(registry) as u16 + emu.get_v(registry2) as u16;
                emu.set_v(registry, (sum % 256) as u8);
                emu.set_v(0xF, if sum > 255 { 1 } else { 0 });
                true
            },
            Chip8Opcode::SubReg { registry, registry2 } => {
                let a = emu.get_v(registry);
                let b = emu.get_v(registry2);
                emu.set_v(registry, ((a as u16 + 256 - b as u16) % 256) as u8);
                emu.set_v(0xF, if a >= b { 1 } else { 0 });
                true
            },
            Chip8Opcode::ShiftRight { registry, registry2 } => {
                opcode_rshift(emu, registry2, registry);
                true
            },
            Chip8Opcode::ShiftLeft { registry, registry2 } => {
                opcode_lshift(emu, registry2, registry);
                true
            },
            Chip8Opcode::SubRegYX { registry, registry2 } => {
                let a = emu.get_v(registry);
                let b = emu.get_v(registry2);
                emu.set_v(registry, ((b as u16 + 256 - a as u16) % 256) as u8);
                emu.set_v(0xF, if b >= a { 1 } else { 0 });
                true
            },
            Chip8Opcode::LoadMemIntoRegs { max_registry } => {
                opcode_load_mem_into_reg(emu, max_registry, true);
                true
            },
            Chip8Opcode::StoreRegsIntoMem { max_registry } => {
                opcode_store_reg_into_mem(emu, max_registry, true);
                true
            },
            Chip8Opcode::StoreVXAsBinary { registry } => {
                let n = emu.get_v(registry);
                let hundreds = n / 100;
                let tens = (n / 10) % 10;
                let ones = n % 10;
                let index = emu.get_index_register() as usize;
                emu.set_memory(index, hundreds);
                emu.set_memory(index + 1, tens);
                emu.set_memory(index + 2, ones);
                true
            },
            Chip8Opcode::AddAssignI { registry } => {
                let sum = emu.get_index_register() + emu.get_v(registry) as u16;
                emu.set_index_register(sum);
                true
            },
            Chip8Opcode::SkipIfNotPressed { registry } => {
                if !emu.get_key(emu.get_v(registry) as usize) {
                    emu.increase_program_counter();
                }
                true
            },
            Chip8Opcode::SkipIfPressed { registry } => {
                if emu.get_key(emu.get_v(registry) as usize) {
                    emu.increase_program_counter();
                }
                true
            },
            Chip8Opcode::PutDelayInRegX { registry } => {
                let time = emu.get_delay_time();
                emu.set_v(registry, time);
                true
            },
            Chip8Opcode::SetDelayTimer { registry } => {
                let time = emu.get_v(registry);
                emu.set_delay_timer(time);
                true
            },
            Chip8Opcode::WaitForKey { registry } => {
                match emu.get_active_key() {
                    None => {
                        let keys = emu.get_keys();
                        match first_pressed_key(&keys) {
                            Some(key) => emu.set_active_key(Some(key)),
                            None => {},
                        }
                        false
                    },
                    Some(key_idx) => {
                        if !emu.get_key(key_idx as usize) {
                            emu.set_v(registry, key_idx);
                            emu.set_active_key(None);
                            true
                        } else {
                            false
                        }
                    },
                }
            },
            Chip8Opcode::Random { registry, value } => {
                emu.set_v(registry, random & value);
                true
            },
            Chip8Opcode::SetSoundTimer { registry } => {
                let time = emu.get_v(registry);
                emu.set_sound_timer(time);
                emu.play_sound();
                true
            },
            Chip8Opcode::GetFontStart { registry } => {
                //load font if not loaded
                if emu.get_memory(0) != 0xF0 {
                    emu.load_font_small();
                }
                //the sprite of digit `registry`
                let start = registry as u16 * 5;
                emu.set_index_register(start);
                true
            },
            Chip8Opcode::JumpToSystemAddress { address } => true,
        }
    }

    #[verifier::spinoff_prover]
    #[verifier::rlimit(50)]
    proof fn lemma_execute_shape(self, s: EmuState, random: u8) {
        match self {
            Chip8Opcode::ClearScreen => {},
            Chip8Opcode::LoadVRegistry { .. } => {},
            Chip8Opcode::LoadIndexRegistry(..) => {},
            Chip8Opcode::Draw { .. } => {},
            Chip8Opcode::Jump { .. } => {},
            Chip8Opcode::Add { .. } => {},
            Chip8Opcode::SkipIfEqValue { .. } => {},
            Chip8Opcode::SkipIfNotEqValue { .. } => {},
            Chip8Opcode::SkipIfRegEq { .. } => {},
            Chip8Opcode::SkipIfRegNotEq { .. } => {},
            Chip8Opcode::Call { .. } => {},
            Chip8Opcode::Return => {},
            Chip8Opcode::SetRegEq { .. } => {},
            Chip8Opcode::BitOr { .. } => {},
            Chip8Opcode::BitAnd { .. } => {},
            Chip8Opcode::BitXor { .. } => {},
            Chip8Opcode::AddReg { .. } => {},
            Chip8Opcode::SubReg { .. } => {},
            Chip8Opcode::ShiftRight { .. } => {},
            Chip8Opcode::SubRegYX { .. } => {},
            Chip8Opcode::ShiftLeft { .. } => {},
            Chip8Opcode::LoadMemIntoRegs { .. } => {},
            Chip8Opcode::StoreRegsIntoMem { .. } => {},
            Chip8Opcode::StoreVXAsBinary { .. } => {},
            Chip8Opcode::AddAssignI { .. } => {},
            Chip8Opcode::SkipIfNotPressed { .. } => {},
            Chip8Opcode::SkipIfPressed { .. } => {},
            Chip8Opcode::PutDelayInRegX { .. } => {},
            Chip8Opcode::SetDelayTimer { .. } => {},
            Chip8Opcode::SetSoundTimer { .. } => {},
            Chip8Opcode::WaitForKey { .. } => {},
            Chip8Opcode::JumpPlusV0 { .. } => {},
            Chip8Opcode::Random { .. } => {},
            Chip8Opcode::GetFontStart { .. } => {},
            Chip8Opcode::JumpToSystemAddress { .. } => {},
        }
    }
}

} // verus!
