use std::hash::{DefaultHasher, Hash, Hasher};
use std::time::{SystemTime, UNIX_EPOCH};

use vstd::prelude::*;

use crate::chip8::chip8_emulator::FONT_SET;
use crate::emulator::state::{
    display_dims, display_size_ok, increase_pc_ok, initial_state, pop_stack_ok, push_stack_ok,
    set_v_ok, spec_increase_pc, spec_pop_stack, spec_push_stack, spec_set_draw_flag,
    spec_set_index, spec_set_memory, spec_set_pc, spec_set_v, state_wf, zeros, EmuState,
    SoundCommand, MEMORY_SIZE, PROGRAM_START, REGISTER_COUNT,
};
use crate::emulator::traits::{Chip, ChipInstructions, Opcode};
use crate::super_chip::super_chip_emulator::BIG_FONT;
use crate::super_chip::super_chip_opcode::StorageRequest;

verus! {

/// Address of the first byte of the large font.
pub const BIG_FONT_START: usize = 81;

/// The identity of a program: a hash of its bytes.
pub uninterp spec fn game_hash(bytes: Seq<u8>) -> u64;

/// Hashes the program with `Hash::hash` for `[u8]` into a fresh `std::hash::DefaultHasher`
/// (`DefaultHasher::new`), then `Hasher::finish`. std documents that every hasher made by
/// `DefaultHasher::new` is the same, so with one build of std the result is a function of the
/// bytes alone (std leaves the algorithm free to change between its releases); the contract
/// names it and says nothing more of it.
#[verifier::external_body]
fn hash_program(bytes: &[u8]) -> (id: u64)
    ensures
        id == game_hash(bytes@),
{
    let mut hasher = DefaultHasher::new();
    bytes.hash(&mut hasher);
    hasher.finish()
}

#[verifier::external_type_specification]
#[verifier::external_body]
pub struct ExSystemTime(SystemTime);

/// `SystemTime::now`: reads the wall clock. Nothing is promised of the time it returns.
#[verifier::external_body]
fn system_time_now() -> SystemTime {
    SystemTime::now()
}

/// `SystemTime::duration_since(UNIX_EPOCH)`, in whole microseconds (`Duration::as_micros`);
/// `None` where the clock is set before the epoch (the `SystemTimeError` case). The result
/// depends on the clock, so nothing is promised of it.
#[verifier::external_body]
fn micros_since_epoch(time: &SystemTime) -> Option<u128> {
    match time.duration_since(UNIX_EPOCH) {
        Ok(elapsed) => Some(elapsed.as_micros()),
        Err(_) => None,
    }
}

/// The entropy byte taken from a clock reading: the low byte of the microseconds since the
/// epoch, or 0 for a clock set before the epoch.
fn entropy_from_micros(micros: Option<u128>) -> (byte: u8)
    ensures
        byte == match micros {
            Some(m) => (m % 256) as u8,
            None => 0u8,
        },
{
    match micros {
        Some(m) => (m % 256) as u8,
        None => 0,
    }
}

/// The entropy byte of the random instruction, read from the wall clock. Every byte is a
/// possible reading, so nothing is promised of it; `entropy_from_micros` states how it is
/// taken from the clock.
fn clock_entropy() -> u8 {
    entropy_from_micros(micros_since_epoch(&system_time_now()))
}

/// The state `s` with the display `display`.
pub open spec fn with_display(s: EmuState, display: Seq<u8>) -> EmuState {
    EmuState { display, ..s }
}

/// The small font copied to the start of memory.
pub open spec fn spec_load_font_small(s: EmuState) -> EmuState {
    EmuState { memory: FONT_SET@ + s.memory.skip(80), ..s }
}

/// The large font copied to memory from `BIG_FONT_START` on.
pub open spec fn spec_load_font_big(s: EmuState) -> EmuState {
    EmuState {
        memory: s.memory.take(BIG_FONT_START as int) + BIG_FONT@ + s.memory.skip(
            BIG_FONT_START + 160,
        ),
        ..s
    }
}

/// A fresh emulator with `bytes` loaded at `PROGRAM_START`, ready to run them.
pub open spec fn spec_load_program(resizable: bool, bytes: Seq<u8>) -> EmuState {
    EmuState {
        memory: zeros(PROGRAM_START as nat) + bytes + zeros(
            (MEMORY_SIZE - PROGRAM_START - bytes.len()) as nat,
        ),
        program_counter: PROGRAM_START,
        has_memory_loaded: true,
        game_id: Some(game_hash(bytes)),
        ..initial_state(resizable)
    }
}

/// One tick of the 60 Hz timers; the beep is silenced once the sound timer is out.
pub open spec fn spec_tick_timers(s: EmuState) -> EmuState {
    if !s.has_memory_loaded {
        s
    } else {
        EmuState {
            delay_timer: if s.delay_timer > 0 {
                (s.delay_timer - 1) as u8
            } else {
                0
            },
            sound_timer: if s.sound_timer > 0 {
                (s.sound_timer - 1) as u8
            } else {
                0
            },
            sound_request: if s.sound_timer > 0 {
                s.sound_request
            } else {
                Some(SoundCommand::Pause)
            },
            ..s
        }
    }
}

/// The 16 bit opcode at the program counter, most significant byte first.
pub open spec fn spec_fetch(s: EmuState) -> u16 {
    (s.memory[s.program_counter as int] * 256 + s.memory[s.program_counter + 1]) as u16
}

/// The instruction at the program counter; one that does not decode is replaced by
/// the instruction set's useless opcode.
pub open spec fn spec_current_op<O: Opcode>(s: EmuState) -> O {
    match O::spec_decode(spec_fetch(s)) {
        Ok(op) => op,
        Err(_) => O::spec_useless(),
    }
}

/// One fetch, decode and execute cycle; nothing runs while no program is loaded.
pub open spec fn spec_cycle<O: Opcode>(s: EmuState, random: u8) -> EmuState {
    if !s.has_memory_loaded {
        s
    } else {
        let (t, increase) = spec_current_op::<O>(s).spec_execute(s, random);
        if increase {
            spec_increase_pc(t)
        } else {
            t
        }
    }
}

/// A cycle runs without a fault on `s`.
pub open spec fn cycle_ok<O: Opcode>(s: EmuState) -> bool {
    !s.has_memory_loaded || (s.program_counter + 1 < MEMORY_SIZE && spec_current_op::<O>(
        s,
    ).spec_can_execute(s))
}

/// The display size in pixels for each screen size.
pub open spec fn spec_display_size(s: EmuState) -> (usize, usize) {
    display_dims(s.display.len())
}

/// Running the current instruction keeps the shape of the state.
pub proof fn lemma_current_op_shape<O: Opcode>(s: EmuState, random: u8)
    requires
        state_wf(s),
        s.has_memory_loaded,
        cycle_ok::<O>(s),
    ensures
        state_wf(spec_cycle::<O>(s, random)),
        spec_cycle::<O>(s, random).resizable == s.resizable,
{
    spec_current_op::<O>(s).lemma_execute_shape(s, random);
}

/// An emulator of the CHIP-8 virtual machine that runs on the chip `C`.
pub struct ChipEmulator<C> {
    memory: [u8; MEMORY_SIZE],
    program_counter: usize,
    v_registers: [u8; REGISTER_COUNT],
    stack: [usize; REGISTER_COUNT],
    stack_pointer: usize,
    /// Holds 16 bit memory addresses.
    index_register: u16,
    chip: C,
    delay_timer: u8,
    sound_timer: u8,
    draw_flag: bool,
    /// Whether each key is held down.
    keys: [bool; REGISTER_COUNT],
    /// The key that a wait for a key press saw go down.
    active_key: Option<u8>,
    /// Whether a program has been loaded.
    has_memory_loaded: bool,
    game_id: Option<u64>,
    sound_request: Option<SoundCommand>,
    storage_request: Option<StorageRequest>,
}

impl<C: Chip> View for ChipEmulator<C> {
    type V = EmuState;

    closed spec fn view(&self) -> EmuState {
        EmuState {
            memory: self.memory@,
            program_counter: self.program_counter,
            v_registers: self.v_registers@,
            stack: self.stack@,
            stack_pointer: self.stack_pointer,
            index_register: self.index_register,
            display: self.chip.display_view(),
            resizable: C::spec_resizable(),
            delay_timer: self.delay_timer,
            sound_timer: self.sound_timer,
            draw_flag: self.draw_flag,
            keys: self.keys@,
            active_key: self.active_key,
            has_memory_loaded: self.has_memory_loaded,
            game_id: self.game_id,
            sound_request: self.sound_request,
            storage_request: match self.storage_request {
                Some(r) => Some(r@),
                None => None,
            },
        }
    }
}

impl<C: Chip> ChipEmulator<C> {
    pub proof fn lemma_wf(&self)
        ensures
            state_wf(self@),
            self@.resizable == C::spec_resizable(),
    {
    }

    /// Makes a completely blank emulator around `chip`.
    pub fn new(chip: C) -> (emu: Self)
        ensures
            emu@ == with_display(initial_state(C::spec_resizable()), chip.display_view()),
    {
        let emu = Self {
            memory: [0; MEMORY_SIZE],
            program_counter: 0,
            v_registers: [0; REGISTER_COUNT],
            stack: [0; REGISTER_COUNT],
            stack_pointer: 0,
            index_register: 0,
            chip,
            delay_timer: 0,
            sound_timer: 0,
            draw_flag: false,
            keys: [false; REGISTER_COUNT],
            active_key: None,
            has_memory_loaded: false,
            game_id: None,
            sound_request: Some(SoundCommand::Pause),
            storage_request: None,
        };
        assert(emu@ =~= with_display(initial_state(C::spec_resizable()), chip.display_view()));
        emu
    }

    /// An emulator around `new_chip` that carries on the machine state of this one: memory,
    /// registers, stack, timers, keys and the loaded program. The new chip keeps its own screen,
    /// and no storage action is pending.
    pub fn clone_emulator<T: Chip>(&self, new_chip: T) -> (emu: ChipEmulator<T>)
        ensures
            emu@ == (EmuState {
                display: new_chip.display_view(),
                resizable: T::spec_resizable(),
                storage_request: None,
                ..self@
            }),
    {
        ChipEmulator {
            memory: self.memory,
            program_counter: self.program_counter,
            v_registers: self.v_registers,
            stack: self.stack,
            stack_pointer: self.stack_pointer,
            index_register: self.index_register,
            chip: new_chip,
            delay_timer: self.delay_timer,
            sound_timer: self.sound_timer,
            draw_flag: self.draw_flag,
            keys: self.keys,
            active_key: self.active_key,
            has_memory_loaded: self.has_memory_loaded,
            game_id: self.game_id,
            sound_request: self.sound_request,
            storage_request: None,
        }
    }

    /// Copies the small font to the start of memory.
    pub fn load_font_small(&mut self)
        ensures
            final(self)@ == spec_load_font_small(old(self)@),
    {
        let mut i: usize = 0;
        while i < 80
            invariant
                i <= 80,
                self@ == (EmuState {
                    memory: FONT_SET@.take(i as int) + old(self)@.memory.skip(i as int),
                    ..old(self)@
                }),
            decreases 80 - i,
        {
            self.memory[i] = FONT_SET[i];
            i = i + 1;
            assert(self.memory@ =~= FONT_SET@.take(i as int) + old(self)@.memory.skip(i as int));
        }
        assert(FONT_SET@.take(80) =~= FONT_SET@);
    }

    /// Copies the large font to memory from `BIG_FONT_START` on, just after the small one.
    pub fn load_font_big(&mut self)
        ensures
            final(self)@ == spec_load_font_big(old(self)@),
    {
        let mut i: usize = 0;
        while i < 160
            invariant
                i <= 160,
                self@ == (EmuState {
                    memory: old(self)@.memory.take(BIG_FONT_START as int) + BIG_FONT@.take(i as int)
                        + old(self)@.memory.skip(BIG_FONT_START + i),
                    ..old(self)@
                }),
            decreases 160 - i,
        {
            self.memory[i + BIG_FONT_START] = BIG_FONT[i];
            i = i + 1;
            assert(self.memory@ =~= old(self)@.memory.take(BIG_FONT_START as int)
                + BIG_FONT@.take(i as int) + old(self)@.memory.skip(BIG_FONT_START + i));
        }
        assert(BIG_FONT@.take(160) =~= BIG_FONT@);
    }

    /// Resets the emulator, then loads `bytes` as the program at `PROGRAM_START`.
    pub fn load_bytes_into_memory(&mut self, bytes: &[u8])
        requires
            bytes@.len() <= MEMORY_SIZE - PROGRAM_START,
        ensures
            final(self)@ == spec_load_program(C::spec_resizable(), bytes@),
    {
        self.reset();
        self.game_id = Some(hash_program(bytes));
        let ghost start = self@;
        let mut i: usize = 0;
        while i < bytes.len()
            invariant
                i <= bytes@.len() <= MEMORY_SIZE - PROGRAM_START,
                self@ == (EmuState {
                    memory: zeros(PROGRAM_START as nat) + bytes@.take(i as int) + zeros(
                        (MEMORY_SIZE - PROGRAM_START - i) as nat,
                    ),
                    ..start
                }),
                start.memory == zeros(MEMORY_SIZE as nat),
            decreases bytes@.len() - i,
        {
            self.memory[i + PROGRAM_START] = bytes[i];
            i = i + 1;
            assert(self.memory@ =~= zeros(PROGRAM_START as nat) + bytes@.take(i as int) + zeros(
                (MEMORY_SIZE - PROGRAM_START - i) as nat,
            ));
        }
        self.program_counter = PROGRAM_START;
        self.has_memory_loaded = true;
        assert(bytes@.take(bytes@.len() as int) =~= bytes@);
        assert(self@ =~= spec_load_program(C::spec_resizable(), bytes@));
    }

    /// Puts the emulator back in the state of a new one with a new chip.
    pub fn reset(&mut self)
        ensures
            final(self)@ == initial_state(C::spec_resizable()),
    {
        *self = ChipEmulator::new(C::new());
    }

    /// One tick of the 60 Hz delay and sound timers.
    pub fn tick_timers(&mut self)
        ensures
            final(self)@ == spec_tick_timers(old(self)@),
    {
        if !self.has_memory_loaded {
            return;
        }
        if self.delay_timer > 0 {
            self.delay_timer = self.delay_timer - 1;
        }
        if self.sound_timer > 0 {
            self.sound_timer = self.sound_timer - 1;
        } else {
            self.sound_request = Some(SoundCommand::Pause);
        }
    }

    /// Whether the chip can change its screen resolution.
    pub fn is_resizable(&self) -> (resizable: bool)
        ensures
            resizable == self@.resizable,
    {
        C::is_resizable()
    }

    /// Whether a program has been loaded.
    pub fn has_memory_loaded(&self) -> (loaded: bool)
        ensures
            loaded == self@.has_memory_loaded,
    {
        self.has_memory_loaded
    }

    /// Whether moving to the next instruction is defined (it cannot overflow).
    pub fn can_increase_program_counter(&self) -> (ok: bool)
        ensures
            ok == increase_pc_ok(self@),
    {
        !self.has_memory_loaded || self.program_counter <= usize::MAX - 2
    }

    pub fn increase_program_counter(&mut self)
        requires
            increase_pc_ok(old(self)@),
        ensures
            final(self)@ == spec_increase_pc(old(self)@),
    {
        if !self.has_memory_loaded {
            return;
        }
        self.program_counter = self.program_counter + 2;
    }

    /// Reads a variable register.
    pub fn get_v(&self, registry: u8) -> (value: u8)
        requires
            registry <= 0xF,
        ensures
            value == self@.v_registers[registry as int],
    {
        self.v_registers[registry as usize]
    }

    pub fn get_memory(&self, addr: u16) -> (value: u8)
        requires
            addr < MEMORY_SIZE,
        ensures
            value == self@.memory[addr as int],
    {
        self.memory[addr as usize]
    }

    /// Writes a variable register; ignored while no program is loaded.
    pub fn set_v(&mut self, addr: u8, value: u8)
        requires
            set_v_ok(old(self)@, addr),
        ensures
            final(self)@ == spec_set_v(old(self)@, addr, value),
    {
        if !self.has_memory_loaded {
            return;
        }
        self.v_registers[addr as usize] = value;
    }

    /// Records whether a key is held down; ignored while no program is loaded.
    pub fn set_key(&mut self, index: usize, state: bool)
        requires
            !old(self)@.has_memory_loaded || index < REGISTER_COUNT,
        ensures
            final(self)@ == (if old(self)@.has_memory_loaded {
                EmuState { keys: old(self)@.keys.update(index as int, state), ..old(self)@ }
            } else {
                old(self)@
            }),
    {
        if !self.has_memory_loaded {
            return;
        }
        self.keys[index] = state;
    }

    pub fn get_draw_flag(&self) -> (flag: bool)
        ensures
            flag == self@.draw_flag,
    {
        self.draw_flag
    }

    pub fn set_draw_flag(&mut self, flag: bool)
        ensures
            final(self)@ == spec_set_draw_flag(old(self)@, flag),
    {
        self.draw_flag = flag;
    }

    pub fn get_display(&self) -> (display: &[u8])
        ensures
            display@ == self@.display,
    {
        self.chip.get_display()
    }

    pub fn get_display_mut(&mut self) -> (display: &mut [u8])
        ensures
            display@ == old(self)@.display,
            final(self)@ == with_display(old(self)@, final(display)@),
    {
        self.chip.get_display_mut()
    }

    /// Sets one pixel of the display.
    pub fn set_pixel(&mut self, idx: usize, value: u8)
        requires
            idx < old(self)@.display.len(),
        ensures
            final(self)@ == with_display(old(self)@, old(self)@.display.update(idx as int, value)),
    {
        self.chip.set_pixel(idx, value);
    }

    /// Gives the display `size` blank pixels.
    pub fn resize_display(&mut self, size: usize)
        requires
            old(self)@.resizable,
        ensures
            final(self)@ == with_display(old(self)@, zeros(size as nat)),
    {
        self.chip.resize_screen(size);
    }

    pub fn set_index_register(&mut self, addr: u16)
        ensures
            final(self)@ == spec_set_index(old(self)@, addr),
    {
        self.index_register = addr;
    }

    pub fn get_index_register(&self) -> (addr: u16)
        ensures
            addr == self@.index_register,
    {
        self.index_register
    }

    pub fn set_program_counter(&mut self, addr: usize)
        ensures
            final(self)@ == spec_set_pc(old(self)@, addr),
    {
        self.program_counter = addr;
    }

    pub fn get_program_counter(&self) -> (addr: usize)
        ensures
            addr == self@.program_counter,
    {
        self.program_counter
    }

    /// Pushes a return address; ignored when the stack pointer is already past the end.
    pub fn push_stack(&mut self, item: usize)
        requires
            push_stack_ok(old(self)@),
        ensures
            final(self)@ == spec_push_stack(old(self)@, item),
    {
        if self.stack_pointer > 16 {
            return;
        }
        self.stack[self.stack_pointer] = item;
        self.stack_pointer = self.stack_pointer + 1;
    }

    /// Pops the top return address and clears its slot.
    pub fn pop_stack(&mut self) -> (item: usize)
        requires
            pop_stack_ok(old(self)@),
        ensures
            (final(self)@, item) == spec_pop_stack(old(self)@),
    {
        self.stack_pointer = self.stack_pointer - 1;
        let value = self.stack[self.stack_pointer];
        self.stack[self.stack_pointer] = 0;
        value
    }

    pub fn get_stack_pointer(&self) -> (sp: usize)
        ensures
            sp == self@.stack_pointer,
    {
        self.stack_pointer
    }

    pub fn set_memory(&mut self, addr: usize, value: u8)
        requires
            addr < MEMORY_SIZE,
        ensures
            final(self)@ == spec_set_memory(old(self)@, addr as int, value),
    {
        self.memory[addr] = value;
    }

    /// A copy of the whole memory.
    pub fn get_memory_snapshot(&self) -> (memory: [u8; MEMORY_SIZE])
        ensures
            memory@ == self@.memory,
    {
        self.memory
    }

    pub fn get_key(&self, index: usize) -> (pressed: bool)
        requires
            index < REGISTER_COUNT,
        ensures
            pressed == self@.keys[index as int],
    {
        self.keys[index]
    }

    pub fn get_keys(&self) -> (keys: [bool; REGISTER_COUNT])
        ensures
            keys@ == self@.keys,
    {
        self.keys
    }

    pub fn set_sound_timer(&mut self, time: u8)
        ensures
            final(self)@ == (EmuState { sound_timer: time, ..old(self)@ }),
    {
        self.sound_timer = time;
    }

    pub fn get_sound_timer(&self) -> (time: u8)
        ensures
            time == self@.sound_timer,
    {
        self.sound_timer
    }

    /// Asks the host to start the beep.
    pub fn play_sound(&mut self)
        ensures
            final(self)@ == (EmuState { sound_request: Some(SoundCommand::Play), ..old(self)@ }),
    {
        self.sound_request = Some(SoundCommand::Play);
    }

    /// Hands the host the last sound command it has not collected yet.
    pub fn take_sound_request(&mut self) -> (command: Option<SoundCommand>)
        ensures
            command == old(self)@.sound_request,
            final(self)@ == (EmuState { sound_request: None, ..old(self)@ }),
    {
        let command = self.sound_request;
        self.sound_request = None;
        command
    }

    /// Records a storage action for the host to perform.
    pub fn set_storage_request(&mut self, request: StorageRequest)
        ensures
            final(self)@ == (EmuState { storage_request: Some(request@), ..old(self)@ }),
    {
        self.storage_request = Some(request);
    }

    /// Hands the host the storage action it has not performed yet.
    pub fn take_storage_request(&mut self) -> (request: Option<StorageRequest>)
        ensures
            match request {
                Some(r) => old(self)@.storage_request == Some(r@),
                None => old(self)@.storage_request is None,
            },
            final(self)@ == (EmuState { storage_request: None, ..old(self)@ }),
    {
        let request = self.storage_request.take();
        request
    }

    pub fn get_delay_time(&self) -> (time: u8)
        ensures
            time == self@.delay_timer,
    {
        self.delay_timer
    }

    pub fn set_delay_timer(&mut self, time: u8)
        ensures
            final(self)@ == (EmuState { delay_timer: time, ..old(self)@ }),
    {
        self.delay_timer = time;
    }

    pub fn has_active_key(&self) -> (active: bool)
        ensures
            active == self@.active_key is Some,
    {
        self.active_key.is_some()
    }

    pub fn get_active_key(&self) -> (key: Option<u8>)
        ensures
            key == self@.active_key,
    {
        self.active_key
    }

    pub fn set_active_key(&mut self, key: Option<u8>)
        ensures
            final(self)@ == (EmuState { active_key: key, ..old(self)@ }),
    {
        self.active_key = key;
    }

    /// The screen's width and height in pixels.
    pub fn get_display_size(&self) -> (size: (usize, usize))
        requires
            display_size_ok(self@),
        ensures
            size == spec_display_size(self@),
    {
        let len = self.chip.get_display().len();
        if len == 2048 {
            (64, 32)
        } else {
            (128, 64)
        }
    }

    pub fn get_game_id(&self) -> (id: Option<u64>)
        ensures
            id == self@.game_id,
    {
        self.game_id
    }
}

impl<C: ChipInstructions> ChipEmulator<C> {
    /// The instruction at the program counter; an opcode that does not decode runs as the
    /// instruction set's useless opcode (for CHIP-8, `Add { registry: 0, value: 0 }`).
    pub fn current_op_code(&self) -> (op: C::Opcode)
        requires
            self@.program_counter + 1 < MEMORY_SIZE,
        ensures
            op == spec_current_op::<C::Opcode>(self@),
    {
        //gets the opcode from the next two bytes
        let opcode = self.memory[self.program_counter] as u16 * 256
            + self.memory[self.program_counter + 1] as u16;
        match C::Opcode::decode(opcode) {
            Ok(opcode) => opcode,
            //run a useless opcode
            Err(_) => C::Opcode::useless_opcode(),
        }
    }

    /// Whether the next cycle runs without a fault.
    pub fn cycle_is_defined(&self) -> (ok: bool)
        ensures
            ok == cycle_ok::<C::Opcode>(self@),
    {
        if !self.has_memory_loaded {
            true
        } else if self.program_counter >= MEMORY_SIZE - 1 {
            false
        } else {
            let opcode = self.current_op_code();
            opcode.can_execute(self)
        }
    }

    /// One fetch, decode and execute cycle, with `random` as the entropy byte of the random
    /// instruction.
    pub fn cycle_with_random(&mut self, random: u8)
        requires
            cycle_ok::<C::Opcode>(old(self)@),
        ensures
            final(self)@ == spec_cycle::<C::Opcode>(old(self)@, random),
    {
        //nothing to run
        if !self.has_memory_loaded {
            return;
        }
        let ghost s = self@;
        let opcode = self.current_op_code();
        proof {
            self.lemma_wf();
            opcode.lemma_execute_shape(s, random);
        }
        if opcode.execute_opcode(self, random) {
            self.increase_program_counter();
        }
    }

    /// One fetch, decode and execute cycle; the random instruction draws its entropy from
    /// the system clock, which is read only for it.
    pub fn cycle(&mut self)
        requires
            cycle_ok::<C::Opcode>(old(self)@),
        ensures
            exists|random: u8| final(self)@ == spec_cycle::<C::Opcode>(old(self)@, random),
            !(old(self)@.has_memory_loaded && spec_current_op::<C::Opcode>(
                old(self)@,
            ).spec_needs_entropy()) ==> final(self)@ == spec_cycle::<C::Opcode>(old(self)@, 0),
    {
        if !self.has_memory_loaded {
            assert(self@ == spec_cycle::<C::Opcode>(self@, 0));
            return;
        }
        let random = if self.current_op_code().needs_entropy() {
            clock_entropy()
        } else {
            0
        };
        self.cycle_with_random(random);
    }
}

} // verus!
