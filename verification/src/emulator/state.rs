use vstd::prelude::*;

use crate::super_chip::super_chip_opcode::StorageRequestView;

verus! {

/// Bytes of main memory.
pub const MEMORY_SIZE: usize = 4096;

/// Address at which loaded programs start.
pub const PROGRAM_START: usize = 0x200;

/// Number of variable registers `V0`..`VF` (also the number of keys and stack slots).
pub const REGISTER_COUNT: usize = 16;

/// Index of the flag register `VF`.
pub const FLAG_REGISTER: u8 = 0xF;

/// What the emulator asks the host's sound output to do.
#[derive(Clone, Copy, Debug, PartialEq, Eq)]
pub enum SoundCommand {
    /// Start the beep.
    Play,
    /// Silence the beep.
    Pause,
}

/// The mathematical model of a `ChipEmulator`: every field as a plain value.
#[verifier::ext_equal]
pub struct EmuState {
    pub memory: Seq<u8>,
    pub program_counter: usize,
    pub v_registers: Seq<u8>,
    pub stack: Seq<usize>,
    pub stack_pointer: usize,
    pub index_register: u16,
    pub display: Seq<u8>,
    /// Whether the chip can change its screen resolution.
    pub resizable: bool,
    pub delay_timer: u8,
    pub sound_timer: u8,
    pub draw_flag: bool,
    pub keys: Seq<bool>,
    pub active_key: Option<u8>,
    pub has_memory_loaded: bool,
    pub game_id: Option<u64>,
    /// The last sound command that the host has not collected yet.
    pub sound_request: Option<SoundCommand>,
    /// The storage action that the host has not collected yet.
    pub storage_request: Option<StorageRequestView>,
}

/// A sequence of `n` zero bytes.
pub open spec fn zeros(n: nat) -> Seq<u8> {
    Seq::new(n, |i: int| 0u8)
}

/// The state of a freshly made emulator whose chip shows a blank low resolution screen.
pub open spec fn initial_state(resizable: bool) -> EmuState {
    EmuState {
        memory: zeros(MEMORY_SIZE as nat),
        program_counter: 0,
        v_registers: zeros(REGISTER_COUNT as nat),
        stack: Seq::new(REGISTER_COUNT as nat, |i: int| 0usize),
        stack_pointer: 0,
        index_register: 0,
        display: zeros(2048),
        resizable,
        delay_timer: 0,
        sound_timer: 0,
        draw_flag: false,
        keys: Seq::new(REGISTER_COUNT as nat, |i: int| false),
        active_key: None,
        has_memory_loaded: false,
        game_id: None,
        sound_request: Some(SoundCommand::Pause),
        storage_request: None,
    }
}

/// The well-formedness of a state: the lengths that the fixed size arrays give.
pub open spec fn state_wf(s: EmuState) -> bool {
    &&& s.memory.len() == MEMORY_SIZE
    &&& s.v_registers.len() == REGISTER_COUNT
    &&& s.stack.len() == REGISTER_COUNT
    &&& s.keys.len() == REGISTER_COUNT
}

/// Writing a variable register; ignored while no program is loaded.
pub open spec fn spec_set_v(s: EmuState, registry: u8, value: u8) -> EmuState {
    if s.has_memory_loaded {
        EmuState { v_registers: s.v_registers.update(registry as int, value), ..s }
    } else {
        s
    }
}

/// A register write is defined: it is ignored, or the register exists.
pub open spec fn set_v_ok(s: EmuState, registry: u8) -> bool {
    !s.has_memory_loaded || registry < 16
}

/// Moving to the next instruction; ignored while no program is loaded.
pub open spec fn spec_increase_pc(s: EmuState) -> EmuState {
    if s.has_memory_loaded {
        EmuState { program_counter: (s.program_counter + 2) as usize, ..s }
    } else {
        s
    }
}

/// Moving to the next instruction does not overflow.
pub open spec fn increase_pc_ok(s: EmuState) -> bool {
    !s.has_memory_loaded || s.program_counter <= usize::MAX - 2
}

pub open spec fn spec_set_pc(s: EmuState, addr: usize) -> EmuState {
    EmuState { program_counter: addr, ..s }
}

pub open spec fn spec_set_index(s: EmuState, addr: u16) -> EmuState {
    EmuState { index_register: addr, ..s }
}

pub open spec fn spec_set_memory(s: EmuState, addr: int, value: u8) -> EmuState {
    EmuState { memory: s.memory.update(addr, value), ..s }
}

pub open spec fn spec_set_draw_flag(s: EmuState, flag: bool) -> EmuState {
    EmuState { draw_flag: flag, ..s }
}

/// Pushing a return address: ignored when the stack pointer is already past the end.
pub open spec fn spec_push_stack(s: EmuState, item: usize) -> EmuState {
    if s.stack_pointer > 16 {
        s
    } else {
        EmuState {
            stack: s.stack.update(s.stack_pointer as int, item),
            stack_pointer: (s.stack_pointer + 1) as usize,
            ..s
        }
    }
}

/// Pushing is defined unless the stack is exactly full.
pub open spec fn push_stack_ok(s: EmuState) -> bool {
    s.stack_pointer != 16
}

/// Popping the top return address, which is cleared.
pub open spec fn spec_pop_stack(s: EmuState) -> (EmuState, usize) {
    let top = (s.stack_pointer - 1) as usize;
    (EmuState { stack: s.stack.update(top as int, 0), stack_pointer: top, ..s }, s.stack[top as int])
}

pub open spec fn pop_stack_ok(s: EmuState) -> bool {
    1 <= s.stack_pointer <= 16
}

/// The screen dimensions for a display of `len` pixels.
pub open spec fn display_dims(len: nat) -> (usize, usize) {
    if len == 2048 {
        (64, 32)
    } else {
        (128, 64)
    }
}

/// The display has one of the two sizes that the emulator knows.
pub open spec fn display_size_ok(s: EmuState) -> bool {
    s.display.len() == 2048 || s.display.len() == 8192
}

} // verus!
