use vstd::prelude::*;

use crate::chip8::chip8_opcode::{
    first_pressed, spec_decode_chip8, spec_draw, spec_execute_chip8, Chip8Opcode,
};
use crate::emulator::chip_emulator::{cycle_ok, spec_cycle, spec_tick_timers, with_display};
use crate::emulator::state::{
    spec_increase_pc, spec_pop_stack, spec_push_stack, spec_set_index, spec_set_memory,
    spec_set_v, state_wf, zeros, EmuState, MEMORY_SIZE,
};
use crate::emulator::traits::Opcode;
use crate::super_chip::storage::{
    lemma_apply_entries, lemma_save_lines, restored, save_entry, save_text, spec_load_from_storage,
};
use crate::super_chip::super_chip_opcode::{
    scrolled_left, scrolled_right, spec_decode_super, spec_execute_super, StorageError,
    SuperChipOpcode,
};

verus! {

/// Loading a save file gives back what was saved: loading the file that `FX75` writes for
/// `V0`..=`Vmax` into a running program, with the same `max`, succeeds and sets exactly
/// those registers to the saved values.
pub proof fn law_save_then_load_restores_registers(saved: EmuState, t: EmuState, max_registry: u8)
    requires
        state_wf(saved),
        state_wf(t),
        t.game_id is Some,
        max_registry <= 7,
    ensures
        spec_load_from_storage(t, save_text(saved.v_registers, max_registry), max_registry) == (
            restored(t, saved.v_registers, max_registry + 1),
            Ok::<(), StorageError>(()),
        ),
{
    let v = saved.v_registers;
    lemma_save_lines(v, max_registry + 1);
    let entries = Seq::new((max_registry + 1) as nat, |k: int| save_entry(v, k));
    assert(entries.skip(0) =~= entries);
    assert(restored(t, v, 0) =~= t);
    lemma_apply_entries(t, v, max_registry, 0);
}

/// Drawing the same sprite twice at the same place gives back the screen as it was (pixels
/// are flipped by exclusive or), provided neither coordinate register is `VF`.
pub proof fn law_draw_twice_restores_display(s: EmuState, x: u8, y: u8, n: u8)
    requires
        state_wf(s),
        x < 15,
        y < 15,
    ensures
        spec_draw(spec_draw(s, x, y, n), x, y, n).display == s.display,
{
    let t = spec_draw(s, x, y, n);
    let u = spec_draw(t, x, y, n);
    assert(t.v_registers[x as int] == s.v_registers[x as int]);
    assert(t.v_registers[y as int] == s.v_registers[y as int]);
    assert forall|i: int| 0 <= i < s.display.len() implies u.display[i] == s.display[i] by {
        let d = s.display[i];
        assert((d ^ 1u8) ^ 1u8 == d) by (bit_vector);
    }
    assert(u.display =~= s.display);
}

/// A subroutine call followed by a return resumes after the call: the program counter moves
/// past the call, the stack pointer is back, and the used stack slot is cleared.
pub proof fn law_call_then_return(s: EmuState, address: u16, random: u8)
    requires
        state_wf(s),
        s.stack_pointer < 16,
        s.program_counter <= usize::MAX - 2,
    ensures
        spec_execute_chip8(
            Chip8Opcode::Return,
            spec_execute_chip8(Chip8Opcode::Call { address }, s, random).0,
            random,
        ) == (
            EmuState {
                program_counter: (s.program_counter + 2) as usize,
                stack: s.stack.update(s.stack_pointer as int, 0),
                ..s
            },
            false,
        ),
{
    let t = spec_execute_chip8(Chip8Opcode::Call { address }, s, random).0;
    let u = spec_execute_chip8(Chip8Opcode::Return, t, random).0;
    assert(u.stack =~= s.stack.update(s.stack_pointer as int, 0));
}

/// `Fx33` writes the three decimal digits of `Vx`: each is below ten, and together they spell
/// `Vx`.
pub proof fn law_bcd_spells_register(s: EmuState, registry: u8, random: u8)
    requires
        state_wf(s),
        registry < 16,
        s.index_register + 2 < MEMORY_SIZE,
    ensures
        ({
            let t = spec_execute_chip8(Chip8Opcode::StoreVXAsBinary { registry }, s, random).0;
            let i = s.index_register as int;
            &&& t.memory[i] < 10
            &&& t.memory[i + 1] < 10
            &&& t.memory[i + 2] < 10
            &&& t.memory[i] * 100 + t.memory[i + 1] * 10 + t.memory[i + 2]
                == s.v_registers[registry as int]
        }),
{
}

/// Storing `V0`..=`Vmax` (`Fx55`) and loading them back from the same address (`Fx65`)
/// leaves every register as it was.
pub proof fn law_store_then_load_registers(s: EmuState, max_registry: u8, random: u8)
    requires
        state_wf(s),
        s.has_memory_loaded,
        max_registry < 16,
        s.index_register + max_registry < MEMORY_SIZE,
    ensures
        ({
            let stored = spec_execute_chip8(
                Chip8Opcode::StoreRegsIntoMem { max_registry },
                s,
                random,
            ).0;
            let back = spec_execute_chip8(
                Chip8Opcode::LoadMemIntoRegs { max_registry },
                spec_set_index(stored, s.index_register),
                random,
            ).0;
            &&& back.v_registers == s.v_registers
            &&& back.memory == stored.memory
            &&& back.index_register == stored.index_register
        }),
{
    let stored = spec_execute_chip8(Chip8Opcode::StoreRegsIntoMem { max_registry }, s, random).0;
    let back = spec_execute_chip8(
        Chip8Opcode::LoadMemIntoRegs { max_registry },
        spec_set_index(stored, s.index_register),
        random,
    ).0;
    assert(back.v_registers =~= s.v_registers);
}

/// Blank memory runs as a useless instruction: a cycle at two zero bytes only moves the
/// program counter on (CHIP-8).
pub proof fn law_blank_memory_is_skipped_chip8(s: EmuState, random: u8)
    requires
        state_wf(s),
        s.has_memory_loaded,
        s.program_counter + 1 < MEMORY_SIZE,
        s.memory[s.program_counter as int] == 0,
        s.memory[s.program_counter + 1] == 0,
    ensures
        spec_cycle::<Chip8Opcode>(s, random) == spec_increase_pc(s),
{
    let t = spec_execute_chip8(Chip8Opcode::Add { registry: 0, value: 0 }, s, random).0;
    assert(t.v_registers =~= s.v_registers);
}

/// Blank memory runs as a useless instruction on the SUPER-CHIP too.
pub proof fn law_blank_memory_is_skipped_super(s: EmuState, random: u8)
    requires
        state_wf(s),
        s.has_memory_loaded,
        s.program_counter + 1 < MEMORY_SIZE,
        s.memory[s.program_counter as int] == 0,
        s.memory[s.program_counter + 1] == 0,
    ensures
        spec_cycle::<SuperChipOpcode>(s, random) == spec_increase_pc(s),
{
    let t = spec_execute_chip8(Chip8Opcode::Add { registry: 0, value: 0 }, s, random).0;
    assert(t.v_registers =~= s.v_registers);
}

/// No key held down from `from` on: none is found.
proof fn lemma_no_key_pressed(keys: Seq<bool>, from: int)
    requires
        0 <= from,
        forall|i: int| 0 <= i < keys.len() ==> !keys[i],
        keys.len() == 16,
    ensures
        first_pressed(keys, from) is None,
    decreases 16 - from,
{
    if from < 16 {
        lemma_no_key_pressed(keys, from + 1);
    }
}

/// Waiting for a key while none is held down changes nothing and holds the program counter.
pub proof fn law_wait_for_key_blocks(s: EmuState, registry: u8, random: u8)
    requires
        state_wf(s),
        s.active_key is None,
        forall|i: int| 0 <= i < 16 ==> !s.keys[i],
    ensures
        spec_execute_chip8(Chip8Opcode::WaitForKey { registry }, s, random) == (s, false),
{
    lemma_no_key_pressed(s.keys, 0);
}

/// Raising and then lowering the resolution leaves a blank low resolution screen.
pub proof fn law_resolution_round_trip(s: EmuState, random: u8)
    ensures
        spec_execute_super(
            SuperChipOpcode::LowerScreenResolution,
            spec_execute_super(SuperChipOpcode::RaiseScreenResolution, s, random).0,
            random,
        ).0 == with_display(s, zeros(2048)),
{
}

/// A cycle keeps the shape of the machine: memory, registers, stack and keys keep their
/// sizes, and the chip stays as resizable as it was.
pub proof fn law_cycle_keeps_shape<O: Opcode>(s: EmuState, random: u8)
    requires
        state_wf(s),
        cycle_ok::<O>(s),
    ensures
        state_wf(spec_cycle::<O>(s, random)),
        spec_cycle::<O>(s, random).resizable == s.resizable,
{
    if s.has_memory_loaded {
        crate::emulator::chip_emulator::lemma_current_op_shape::<O>(s, random);
    }
}

/// `k` ticks of the 60 Hz timers.
pub open spec fn spec_ticks(s: EmuState, k: nat) -> EmuState
    decreases k,
{
    if k == 0 {
        s
    } else {
        spec_tick_timers(spec_ticks(s, (k - 1) as nat))
    }
}

/// The timers count down by one per tick and stop at zero while a program runs.
pub proof fn law_timers_count_down(s: EmuState, k: nat)
    requires
        s.has_memory_loaded,
    ensures
        spec_ticks(s, k).delay_timer == if s.delay_timer >= k {
            s.delay_timer - k
        } else {
            0
        },
        spec_ticks(s, k).sound_timer == if s.sound_timer >= k {
            s.sound_timer - k
        } else {
            0
        },
        spec_ticks(s, k).has_memory_loaded,
    decreases k,
{
    if k > 0 {
        law_timers_count_down(s, (k - 1) as nat);
    }
}

/// Scrolling left and then right gives back every pixel but those of the four leftmost
/// columns, which are blank.
pub proof fn law_scroll_left_then_right(d: Seq<u8>, w: int)
    requires
        w == 64 || w == 128,
    ensures
        scrolled_right(scrolled_left(d, w), w) == Seq::new(
            d.len(),
            |i: int|
                if i % w < 4 {
                    0u8
                } else {
                    d[i]
                },
        ),
{
    let left = scrolled_left(d, w);
    let back = scrolled_right(left, w);
    assert forall|i: int| 0 <= i < d.len() && i % w >= 4 implies back[i] == d[i] by {
        vstd::arithmetic::div_mod::lemma_fundamental_div_mod(i, w);
        vstd::arithmetic::div_mod::lemma_fundamental_div_mod_converse(
            i - 4,
            w,
            i / w,
            i % w - 4,
        );
    }
    assert(back =~= Seq::new(
        d.len(),
        |i: int|
            if i % w < 4 {
                0u8
            } else {
                d[i]
            },
    ));
}

/// The SUPER-CHIP set is the CHIP-8 set where it adds nothing: an opcode outside its own
/// patterns decodes as the CHIP-8 instruction.
pub proof fn law_super_decode_extends_chip8(opcode: u16)
    requires
        !(opcode < 0x1000 && (opcode == 0xFF || opcode == 0xFE || opcode == 0xFB || opcode == 0xFC
            || opcode == 0xFD || opcode / 16 == 0xC)),
        !(opcode / 4096 == 0xD && opcode % 16 == 0),
        !(opcode / 4096 == 0xF && opcode % 256 == 0x30),
        !(opcode / 4096 == 0xF && opcode % 256 == 0x75),
        !(opcode / 4096 == 0xF && opcode % 256 == 0x85),
    ensures
        spec_decode_super(opcode) == match spec_decode_chip8(opcode) {
            Ok(op) => Ok(SuperChipOpcode::Chip8(op)),
            Err(e) => Err(e),
        },
{
}


/// An opcode that does not decode is reported with its own value, by both instruction sets.
pub proof fn law_unknown_opcode_reports_itself(opcode: u16)
    ensures
        spec_decode_chip8(opcode) matches Err(e) ==> e.0 == opcode,
        spec_decode_super(opcode) matches Err(e) ==> e.0 == opcode,
{
}

/// `3xkk` skips exactly the next instruction when `Vx` equals `kk`, and otherwise moves on
/// to the next one.
pub proof fn law_skip_if_equal(s: EmuState, random: u8)
    requires
        state_wf(s),
        s.has_memory_loaded,
        s.program_counter + 1 < MEMORY_SIZE,
        s.memory[s.program_counter as int] / 16 == 3,
    ensures
        ({
            let x = s.memory[s.program_counter as int] % 16;
            let kk = s.memory[s.program_counter + 1];
            spec_cycle::<Chip8Opcode>(s, random).program_counter == if s.v_registers[x as int]
                == kk {
                s.program_counter + 4
            } else {
                s.program_counter + 2
            }
        }),
{
    let hi = s.memory[s.program_counter as int];
    let lo = s.memory[s.program_counter + 1];
    let op = crate::emulator::chip_emulator::spec_fetch(s);
    assert(op == hi * 256 + lo);
    assert(op / 4096 == 3);
    assert((op / 256) % 16 == hi % 16);
    assert(op % 256 == lo);
}


/// A write is read back: a memory byte after `set_memory`, and a register after `set_v` while a
/// program runs.
pub proof fn law_write_then_read(s: EmuState, addr: int, registry: u8, value: u8)
    requires
        state_wf(s),
        0 <= addr < MEMORY_SIZE,
        registry < 16,
    ensures
        spec_set_memory(s, addr, value).memory[addr] == value,
        s.has_memory_loaded ==> spec_set_v(s, registry, value).v_registers[registry as int] == value,
{
}

/// Popping the stack gives back the address pushed last, and leaves the stack pointer where it
/// was.
pub proof fn law_push_then_pop(s: EmuState, item: usize)
    requires
        state_wf(s),
        s.stack_pointer < 16,
    ensures
        spec_pop_stack(spec_push_stack(s, item)).1 == item,
        spec_pop_stack(spec_push_stack(s, item)).0.stack_pointer == s.stack_pointer,
{
}

} // verus!
