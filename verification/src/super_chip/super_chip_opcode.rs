use vstd::prelude::*;

use crate::chip8::chip8_opcode::{
    lemma_pixel_index, load_mem_ok, nibble_n, nibble_t, nibble_x, nibble_y, opcode_load_mem_into_reg,
    opcode_lshift, opcode_rshift, opcode_store_reg_into_mem, shift_ok, spec_can_execute_chip8,
    spec_decode_chip8, spec_execute_chip8, spec_load_mem_into_reg, spec_lshift, spec_rshift,
    spec_store_reg_into_mem, store_reg_ok, Chip8Opcode, UnkownOpCodeErr,
};
use crate::emulator::chip_emulator::{
    spec_load_font_big, with_display, ChipEmulator, BIG_FONT_START,
};
use crate::emulator::state::{
    display_dims, display_size_ok, initial_state, spec_set_draw_flag, spec_set_index,
    spec_set_pc, spec_set_v, state_wf, zeros, EmuState, MEMORY_SIZE,
};
use crate::emulator::traits::{Chip, Opcode};
use crate::super_chip::storage::{save_text, save_to_storage, MAX_SAVED_REGISTER};

verus! {

/// Why saving or loading the registers failed.
#[derive(Debug)]
pub enum StorageError {
    /// Reading or writing the save file failed; the message says why.
    Io(String),
    RegistyTooHigh,
    NoGameId,
    InvailidKey,
}

/// A storage action for the host to perform.
pub enum StorageRequest {
    /// Write `contents` to the save file of the program `game_id`.
    Save { game_id: u64, contents: Vec<u8> },
    /// Read the save file of the program `game_id` and hand it to `apply_save`.
    Load { game_id: u64, max_registry: u8 },
    /// The instruction failed before any file was touched.
    Failed(StorageError),
}

/// The model of a `StorageRequest`.
pub enum StorageRequestView {
    Save { game_id: u64, contents: Seq<u8> },
    Load { game_id: u64, max_registry: u8 },
    Failed(StorageError),
}

impl View for StorageRequest {
    type V = StorageRequestView;

    open spec fn view(&self) -> StorageRequestView {
        match self {
            StorageRequest::Save { game_id, contents } => StorageRequestView::Save {
                game_id: *game_id,
                contents: contents@,
            },
            StorageRequest::Load { game_id, max_registry } => StorageRequestView::Load {
                game_id: *game_id,
                max_registry: *max_registry,
            },
            StorageRequest::Failed(e) => StorageRequestView::Failed(*e),
        }
    }
}

/// The SUPER-CHIP instruction set: the CHIP-8 set with a few changes and additions.
#[derive(Clone, Copy, Debug)]
pub enum SuperChipOpcode {
    Chip8(Chip8Opcode),
    ///00FF
    RaiseScreenResolution,
    ///00FE
    LowerScreenResolution,
    ///DXY0
    LargeDraw { registry: u8, registry2: u8 },
    ///00FB
    ScrollRight,
    ///00CN
    ScrollDown { n: u8 },
    ///00FC
    ScrollLeft,
    ///FX30
    SetFontLarge { registry: u8 },
    ///00FD
    Exit,
    ///FX75
    SaveToStorage { registry: u8 },
    ///FX85
    LoadFromStorage { registry: u8 },
}

/// A CHIP-8 decoding, wrapped.
pub open spec fn spec_decode_as_chip8(opcode: u16) -> Result<SuperChipOpcode, UnkownOpCodeErr> {
    match spec_decode_chip8(opcode) {
        Ok(op) => Ok(SuperChipOpcode::Chip8(op)),
        Err(e) => Err(e),
    }
}

/// The SUPER-CHIP decoding table; what it does not know is decoded as CHIP-8.
pub open spec fn spec_decode_super(opcode: u16) -> Result<SuperChipOpcode, UnkownOpCodeErr> {
    let t = nibble_t(opcode);
    let registry = nibble_x(opcode);
    let registry2 = nibble_y(opcode);
    let n = nibble_n(opcode);
    if t == 0x0 {
        if opcode == 0xFF {
            Ok(SuperChipOpcode::RaiseScreenResolution)
        } else if opcode == 0xFE {
            Ok(SuperChipOpcode::LowerScreenResolution)
        } else if opcode == 0xFB {
            Ok(SuperChipOpcode::ScrollRight)
        } else if opcode == 0xFC {
            Ok(SuperChipOpcode::ScrollLeft)
        } else if opcode == 0xFD {
            Ok(SuperChipOpcode::Exit)
        } else if opcode / 16 == 0xC {
            Ok(SuperChipOpcode::ScrollDown { n })
        } else {
            spec_decode_as_chip8(opcode)
        }
    } else if t == 0xD && n == 0 {
        Ok(SuperChipOpcode::LargeDraw { registry, registry2 })
    } else if t == 0xF && registry2 == 0x3 && n == 0x0 {
        Ok(SuperChipOpcode::SetFontLarge { registry })
    } else if t == 0xF && registry2 == 0x7 && n == 0x5 {
        Ok(SuperChipOpcode::SaveToStorage { registry })
    } else if t == 0xF && registry2 == 0x8 && n == 0x5 {
        Ok(SuperChipOpcode::LoadFromStorage { registry })
    } else {
        spec_decode_as_chip8(opcode)
    }
}

/// Each row moves four pixels right; four blank pixels come in at the left.
pub open spec fn scrolled_right(d: Seq<u8>, w: int) -> Seq<u8> {
    Seq::new(
        d.len(),
        |i: int|
            if i % w < 4 {
                0u8
            } else {
                d[i - 4]
            },
    )
}

/// Each row moves four pixels left; four blank pixels come in at the right.
pub open spec fn scrolled_left(d: Seq<u8>, w: int) -> Seq<u8> {
    Seq::new(
        d.len(),
        |i: int|
            if i % w >= w - 4 {
                0u8
            } else {
                d[i + 4]
            },
    )
}

/// The screen moves `n` rows down; `n` blank rows come in at the top.
pub open spec fn scrolled_down(d: Seq<u8>, w: int, n: int) -> Seq<u8> {
    Seq::new(
        d.len(),
        |i: int|
            if i / w < n {
                0u8
            } else {
                d[i - n * w]
            },
    )
}

/// Row `dy` of a large sprite: two bytes from the index register on.
pub open spec fn large_line(s: EmuState, dy: int) -> u16 {
    (s.memory[s.index_register + 2 * dy] * 256 + s.memory[s.index_register + 2 * dy + 1]) as u16
}

/// Bit `dx` of a large sprite row, counted from the most significant bit.
pub open spec fn large_bit(line: u16, dx: int) -> bool {
    line & (0x8000u16 >> (dx as u16)) != 0
}

/// The 16 by 16 sprite drawn at (`vx`, `vy`) on a 128 pixel wide screen covers pixel `loc`.
/// Sprites wrap at the right edge and are clipped at the bottom.
pub open spec fn large_hit(s: EmuState, vx: int, vy: int, loc: int) -> bool {
    let px = loc % 128;
    let py = loc / 128;
    let dy = py - vy;
    let dx = (px - vx) % 128;
    &&& 0 <= dy < 16
    &&& py < 64
    &&& dx < 16
    &&& large_bit(large_line(s, dy), dx)
}

/// `DXY0`: draws the 16 by 16 sprite at the index register at (`Vx`, `Vy`); `VF` tells
/// whether a pixel was turned off. The coordinates are read after `VF` is cleared.
pub open spec fn spec_large_draw(s: EmuState, registry: u8, registry2: u8) -> EmuState {
    let cleared = spec_set_v(s, 0xF, 0);
    let vx = cleared.v_registers[registry as int] as int;
    let vy = cleared.v_registers[registry2 as int] as int;
    let collides = exists|loc: int|
        0 <= loc < s.display.len() && large_hit(s, vx, vy, loc) && s.display[loc] == 1;
    let flagged = if collides {
        spec_set_v(cleared, 0xF, 1)
    } else {
        cleared
    };
    EmuState {
        display: Seq::new(
            s.display.len(),
            |loc: int|
                if large_hit(s, vx, vy, loc) {
                    s.display[loc] ^ 1
                } else {
                    s.display[loc]
                },
        ),
        draw_flag: true,
        ..flagged
    }
}

/// Every pixel of the large sprite that is set lands on the display.
pub open spec fn large_draw_fits(s: EmuState, vx: int, vy: int) -> bool {
    forall|dy: int, dx: int|
        0 <= dy < 16 && 0 <= dx < 16 && vy + dy < 64 && #[trigger] large_bit(large_line(s, dy), dx)
            ==> (vx + dx) % 128 + (vy + dy) * 128 < s.display.len()
}

pub open spec fn large_draw_ok(s: EmuState, registry: u8, registry2: u8) -> bool {
    let cleared = spec_set_v(s, 0xF, 0);
    &&& registry < 16
    &&& registry2 < 16
    &&& s.index_register + 31 < MEMORY_SIZE
    &&& large_draw_fits(
        s,
        cleared.v_registers[registry as int] as int,
        cleared.v_registers[registry2 as int] as int,
    )
}

/// What `FX75` asks of the host.
pub open spec fn save_request(s: EmuState, registry: u8) -> StorageRequestView {
    match s.game_id {
        None => StorageRequestView::Failed(StorageError::NoGameId),
        Some(id) => if registry > MAX_SAVED_REGISTER {
            StorageRequestView::Failed(StorageError::RegistyTooHigh)
        } else {
            StorageRequestView::Save { game_id: id, contents: save_text(s.v_registers, registry) }
        },
    }
}

/// What `FX85` asks of the host.
pub open spec fn load_request(s: EmuState, registry: u8) -> StorageRequestView {
    match s.game_id {
        None => StorageRequestView::Failed(StorageError::NoGameId),
        Some(id) => if registry > MAX_SAVED_REGISTER {
            StorageRequestView::Failed(StorageError::RegistyTooHigh)
        } else {
            StorageRequestView::Load { game_id: id, max_registry: registry }
        },
    }
}

/// The effect of a SUPER-CHIP instruction, and whether the program counter then moves on.
pub open spec fn spec_execute_super(op: SuperChipOpcode, s: EmuState, random: u8) -> (EmuState, bool) {
    let v = s.v_registers;
    let w = display_dims(s.display.len()).0 as int;
    match op {
        SuperChipOpcode::Chip8(op) => match op {
            Chip8Opcode::ShiftRight { registry, .. } => (spec_rshift(s, registry, registry), true),
            Chip8Opcode::ShiftLeft { registry, .. } => (spec_lshift(s, registry, registry), true),
            Chip8Opcode::StoreRegsIntoMem { max_registry } => (
                spec_store_reg_into_mem(s, max_registry, false),
                true,
            ),
            Chip8Opcode::LoadMemIntoRegs { max_registry } => (
                spec_load_mem_into_reg(s, max_registry, false),
                true,
            ),
            Chip8Opcode::BitOr { registry, registry2 } => (
                spec_set_v(s, registry, v[registry as int] | v[registry2 as int]),
                true,
            ),
            Chip8Opcode::BitAnd { registry, registry2 } => (
                spec_set_v(s, registry, v[registry as int] & v[registry2 as int]),
                true,
            ),
            Chip8Opcode::BitXor { registry, registry2 } => (
                spec_set_v(s, registry, v[registry as int] ^ v[registry2 as int]),
                true,
            ),
            Chip8Opcode::JumpPlusV0 { address } => (
                spec_set_pc(s, (address + v[((address / 256) % 16) as int]) as usize),
                false,
            ),
            _ => spec_execute_chip8(op, s, random),
        },
        SuperChipOpcode::LowerScreenResolution => (with_display(s, zeros(2048)), true),
        SuperChipOpcode::RaiseScreenResolution => (with_display(s, zeros(8192)), true),
        SuperChipOpcode::ScrollRight => (with_display(s, scrolled_right(s.display, w)), true),
        SuperChipOpcode::ScrollLeft => (with_display(s, scrolled_left(s.display, w)), true),
        SuperChipOpcode::ScrollDown { n } => (
            with_display(s, scrolled_down(s.display, w, n as int)),
            true,
        ),
        SuperChipOpcode::LargeDraw { registry, registry2 } => (
            spec_large_draw(s, registry, registry2),
            true,
        ),
        SuperChipOpcode::Exit => (spec_set_draw_flag(initial_state(s.resizable), true), true),
        SuperChipOpcode::LoadFromStorage { registry } => (
            EmuState { storage_request: Some(load_request(s, registry)), ..s },
            true,
        ),
        SuperChipOpcode::SaveToStorage { registry } => (
            EmuState { storage_request: Some(save_request(s, registry)), ..s },
            true,
        ),
        SuperChipOpcode::SetFontLarge { registry } => {
            let with_font = if s.memory[BIG_FONT_START as int] == 0 {
                spec_load_font_big(s)
            } else {
                s
            };
            (spec_set_index(with_font, (registry * 10 + BIG_FONT_START) as u16), true)
        },
    }
}

/// A SUPER-CHIP instruction runs without a fault on `s`.
pub open spec fn spec_can_execute_super(op: SuperChipOpcode, s: EmuState) -> bool {
    match op {
        SuperChipOpcode::Chip8(op) => match op {
            Chip8Opcode::ShiftRight { registry, .. } => shift_ok(s, registry, registry),
            Chip8Opcode::ShiftLeft { registry, .. } => shift_ok(s, registry, registry),
            Chip8Opcode::StoreRegsIntoMem { max_registry } => store_reg_ok(s, max_registry),
            Chip8Opcode::LoadMemIntoRegs { max_registry } => load_mem_ok(s, max_registry),
            Chip8Opcode::BitOr { registry, registry2 } => registry < 16 && registry2 < 16,
            Chip8Opcode::BitAnd { registry, registry2 } => registry < 16 && registry2 < 16,
            Chip8Opcode::BitXor { registry, registry2 } => registry < 16 && registry2 < 16,
            Chip8Opcode::JumpPlusV0 { address } => true,
            _ => spec_can_execute_chip8(op, s),
        },
        SuperChipOpcode::LowerScreenResolution => s.resizable,
        SuperChipOpcode::RaiseScreenResolution => s.resizable,
        SuperChipOpcode::ScrollRight => display_size_ok(s),
        SuperChipOpcode::ScrollLeft => display_size_ok(s),
        SuperChipOpcode::ScrollDown { n } => display_size_ok(s) && n <= display_dims(
            s.display.len(),
        ).1,
        SuperChipOpcode::LargeDraw { registry, registry2 } => large_draw_ok(s, registry, registry2),
        SuperChipOpcode::Exit => true,
        SuperChipOpcode::LoadFromStorage { registry } => true,
        SuperChipOpcode::SaveToStorage { registry } => true,
        SuperChipOpcode::SetFontLarge { registry } => true,
    }
}


/// Moves every row four pixels right (`right`) or left.
fn opcode_scroll_sideways<C: Chip>(emu: &mut ChipEmulator<C>, right: bool)
    requires
        display_size_ok(old(emu)@),
    ensures
        final(emu)@ == with_display(
            old(emu)@,
            if right {
                scrolled_right(old(emu)@.display, display_dims(old(emu)@.display.len()).0 as int)
            } else {
                scrolled_left(old(emu)@.display, display_dims(old(emu)@.display.len()).0 as int)
            },
        ),
{
    let ghost s = emu@;
    let (width, _) = emu.get_display_size();
    let ghost w = width as int;
    let ghost target = if right {
        scrolled_right(s.display, w)
    } else {
        scrolled_left(s.display, w)
    };
    let old = vstd::slice::slice_to_vec(emu.get_display());
    let len = old.len();
    let mut i: usize = 0;
    while i < len
        invariant
            i <= len == s.display.len(),
            old@ == s.display,
            display_size_ok(s),
            w == width,
            width == 64 || width == 128,
            target == (if right {
                scrolled_right(s.display, w)
            } else {
                scrolled_left(s.display, w)
            }),
            emu@ == with_display(
                s,
                Seq::new(
                    s.display.len(),
                    |j: int|
                        if j < i {
                            target[j]
                        } else {
                            s.display[j]
                        },
                ),
            ),
        decreases len - i,
    {
        let col = i % width;
        let value = if right {
            if col < 4 {
                0
            } else {
                old[i - 4]
            }
        } else {
            if col >= width - 4 {
                0
            } else {
                proof {
                    assert(i + 4 < len) by {
                        vstd::arithmetic::div_mod::lemma_fundamental_div_mod(i as int, w);
                        assert(len == w * (len as int / w)) by {
                            if width == 64 {
                                assert(len == 2048 || len == 8192);
                            } else {
                                assert(len == 2048 || len == 8192);
                            }
                        }
                        assert(i as int / w < len as int / w) by {
                            vstd::arithmetic::div_mod::lemma_div_is_ordered(i as int, len - 1, w);
                            assert((len - 1) as int / w == len as int / w - 1) by {
                                if len == 2048 && width == 64 {
                                } else if len == 2048 {
                                } else if width == 64 {
                                } else {
                                }
                            }
                        }
                        vstd::arithmetic::mul::lemma_mul_inequality(
                            i as int / w + 1,
                            len as int / w,
                            w,
                        );
                        vstd::arithmetic::mul::lemma_mul_is_commutative(w, i as int / w);
                        vstd::arithmetic::mul::lemma_mul_is_commutative(w, len as int / w);
                        vstd::arithmetic::mul::lemma_mul_is_distributive_add_other_way(
                            w,
                            i as int / w,
                            1,
                        );
                    }
                }
                old[i + 4]
            }
        };
        emu.set_pixel(i, value);
        i = i + 1;
        proof {
            assert(emu@.display =~= Seq::new(
                s.display.len(),
                |j: int|
                    if j < i {
                        target[j]
                    } else {
                        s.display[j]
                    },
            ));
        }
    }
    proof {
        assert(emu@.display =~= target);
    }
}

/// Moves the screen `n` rows down.
fn opcode_scroll_down<C: Chip>(emu: &mut ChipEmulator<C>, n: u8)
    requires
        display_size_ok(old(emu)@),
        n <= display_dims(old(emu)@.display.len()).1,
    ensures
        final(emu)@ == with_display(
            old(emu)@,
            scrolled_down(old(emu)@.display, display_dims(old(emu)@.display.len()).0 as int, n as int),
        ),
{
    let ghost s = emu@;
    let (width, height) = emu.get_display_size();
    let ghost w = width as int;
    let ghost target = scrolled_down(s.display, w, n as int);
    let old = vstd::slice::slice_to_vec(emu.get_display());
    let len = old.len();
    assert(n * width <= 64 * 128) by (nonlinear_arith)
        requires
            n <= height,
            (width == 64 && height == 32) || (width == 128 && height == 64),
    ;
    let shift = n as usize * width;
    let mut i: usize = 0;
    while i < len
        invariant
            i <= len == s.display.len(),
            old@ == s.display,
            (width, height) == display_dims(s.display.len()),
            display_size_ok(s),
            n <= height,
            w == width,
            shift == n * width,
            target == scrolled_down(s.display, w, n as int),
            emu@ == with_display(
                s,
                Seq::new(
                    s.display.len(),
                    |j: int|
                        if j < i {
                            target[j]
                        } else {
                            s.display[j]
                        },
                ),
            ),
        decreases len - i,
    {
        let value = if i / width < n as usize {
            0
        } else {
            proof {
                assert(i >= shift) by {
                    vstd::arithmetic::div_mod::lemma_fundamental_div_mod(i as int, w);
                    vstd::arithmetic::mul::lemma_mul_inequality(n as int, i as int / w, w);
                    vstd::arithmetic::mul::lemma_mul_is_commutative(w, i as int / w);
                }
            }
            old[i - shift]
        };
        emu.set_pixel(i, value);
        i = i + 1;
        proof {
            assert(emu@.display =~= Seq::new(
                s.display.len(),
                |j: int|
                    if j < i {
                        target[j]
                    } else {
                        s.display[j]
                    },
            ));
        }
    }
    proof {
        assert(emu@.display =~= target);
    }
}


/// Pixel `loc` is covered by the large sprite and comes before row `r`, column `c` of it.
pub open spec fn large_hit_before(s: EmuState, vx: int, vy: int, loc: int, r: int, c: int) -> bool {
    &&& large_hit(s, vx, vy, loc)
    &&& (loc / 128 - vy < r || (loc / 128 - vy == r && (loc % 128 - vx) % 128 < c))
}

/// The state part way through a large draw.
pub open spec fn large_progress(s: EmuState, vx: int, vy: int, r: int, c: int) -> EmuState {
    let cleared = spec_set_v(s, 0xF, 0);
    let collided = exists|loc: int|
        0 <= loc < s.display.len() && large_hit_before(s, vx, vy, loc, r, c) && s.display[loc] == 1;
    let flagged = if collided {
        spec_set_v(cleared, 0xF, 1)
    } else {
        cleared
    };
    EmuState {
        display: Seq::new(
            s.display.len(),
            |loc: int|
                if large_hit_before(s, vx, vy, loc, r, c) {
                    s.display[loc] ^ 1
                } else {
                    s.display[loc]
                },
        ),
        ..flagged
    }
}

/// Column `c` of a sprite drawn at `vx` lands on pixel column `(vx + c) % 128`, and only
/// that column maps back to `c`.
proof fn lemma_wrap_offset(vx: int, c: int, a: int)
    requires
        0 <= vx,
        0 <= c < 128,
        0 <= a < 128,
    ensures
        ((vx + c) % 128 - vx) % 128 == c,
        (a - vx) % 128 == c ==> a == (vx + c) % 128,
{
    let px = (vx + c) % 128;
    let q = (vx + c) / 128;
    vstd::arithmetic::div_mod::lemma_fundamental_div_mod(vx + c, 128);
    vstd::arithmetic::div_mod::lemma_fundamental_div_mod_converse(px - vx, 128, -q, c);
    if (a - vx) % 128 == c {
        let k = (a - vx) / 128;
        vstd::arithmetic::div_mod::lemma_fundamental_div_mod(a - vx, 128);
        vstd::arithmetic::div_mod::lemma_fundamental_div_mod_converse(vx + c, 128, -k, a);
    }
}

/// One sprite pixel of a large draw: from (`r`, `c`) to (`r`, `c + 1`).
proof fn lemma_large_step(s: EmuState, vx: int, vy: int, r: int, c: int)
    requires
        0 <= vx,
        0 <= vy,
        0 <= r < 16,
        0 <= c < 16,
        large_draw_fits(s, vx, vy),
    ensures
        ({
            let py = vy + r;
            let px = (vx + c) % 128;
            let loc = px + py * 128;
            if py < 64 && large_bit(large_line(s, r), c) {
                &&& 0 <= loc < s.display.len()
                &&& large_hit(s, vx, vy, loc)
                &&& !large_hit_before(s, vx, vy, loc, r, c)
                &&& forall|l: int|
                    0 <= l < s.display.len() ==> (#[trigger] large_hit_before(s, vx, vy, l, r, c + 1)
                        <==> (large_hit_before(s, vx, vy, l, r, c) || l == loc))
            } else {
                forall|l: int|
                    0 <= l < s.display.len() ==> (#[trigger] large_hit_before(s, vx, vy, l, r, c + 1)
                        <==> large_hit_before(s, vx, vy, l, r, c))
            }
        }),
{
    let py = vy + r;
    let px = (vx + c) % 128;
    let loc = px + py * 128;
    lemma_wrap_offset(vx, c, 0);
    vstd::arithmetic::div_mod::lemma_mod_bound(vx + c, 128);
    lemma_pixel_index(128, px, py, 0);
    assert forall|l: int|
        0 <= l < s.display.len() && #[trigger] large_hit(s, vx, vy, l) && l / 128 - vy == r && (l
            % 128 - vx) % 128 == c implies l == loc by {
        lemma_pixel_index(128, 0, 0, l);
        lemma_wrap_offset(vx, c, l % 128);
    }
    if py < 64 && large_bit(large_line(s, r), c) {
        assert((vx + c) % 128 + (vy + r) * 128 < s.display.len());
    }
}

/// Row `r` of a large draw is done once its sixteen columns are.
proof fn lemma_large_row_end(s: EmuState, vx: int, vy: int, r: int)
    ensures
        large_progress(s, vx, vy, r, 16) == large_progress(s, vx, vy, r + 1, 0),
{
    assert forall|loc: int| 0 <= loc < s.display.len() implies (large_hit_before(
        s,
        vx,
        vy,
        loc,
        r,
        16,
    ) <==> large_hit_before(s, vx, vy, loc, r + 1, 0)) by {
    }
    assert(large_progress(s, vx, vy, r, 16).display =~= large_progress(
        s,
        vx,
        vy,
        r + 1,
        0,
    ).display);
}

/// `DXY0`: draws the 16 by 16 sprite at the index register at (`Vx`, `Vy`).
pub fn opcode_large_draw<C: Chip>(emu: &mut ChipEmulator<C>, registry: u8, registry2: u8)
    requires
        large_draw_ok(old(emu)@, registry, registry2),
    ensures
        final(emu)@ == spec_large_draw(old(emu)@, registry, registry2),
{
    let ghost s = emu@;
    proof {
        emu.lemma_wf();
    }
    emu.set_v(0xF, 0);
    let start_address = emu.get_index_register();
    let vx = emu.get_v(registry) as usize;
    let vy = emu.get_v(registry2) as usize;
    let ghost gvx = vx as int;
    let ghost gvy = vy as int;
    proof {
        assert(emu@.display =~= large_progress(s, gvx, gvy, 0, 0).display);
        assert(emu@ =~= large_progress(s, gvx, gvy, 0, 0));
    }
    let mut dy: usize = 0;
    while dy < 16
        invariant
            state_wf(s),
            large_draw_ok(s, registry, registry2),
            dy <= 16,
            start_address == s.index_register,
            gvx == vx,
            gvy == vy,
            vx < 256,
            vy < 256,
            large_draw_fits(s, gvx, gvy),
            emu@ == large_progress(s, gvx, gvy, dy as int, 0),
        decreases 16 - dy,
    {
        let row_addr = start_address + (dy * 2) as u16;
        let line = emu.get_memory(row_addr) as u16 * 256 + emu.get_memory(row_addr + 1) as u16;
        let mut dx: usize = 0;
        while dx < 16
            invariant
                state_wf(s),
                large_draw_ok(s, registry, registry2),
                dy < 16,
                dx <= 16,
                gvx == vx,
                gvy == vy,
                vx < 256,
                vy < 256,
                large_draw_fits(s, gvx, gvy),
                line == large_line(s, dy as int),
                emu@ == large_progress(s, gvx, gvy, dy as int, dx as int),
            decreases 16 - dx,
        {
            proof {
                lemma_large_step(s, gvx, gvy, dy as int, dx as int);
            }
            let px = (vx + dx) % 128;
            let py = vy + dy;
            if py < 64 && line & (0x8000u16 >> dx as u16) != 0 {
                let loc = px + py * 128;
                let ghost collided_before = exists|l: int|
                    0 <= l < s.display.len() && large_hit_before(
                        s,
                        gvx,
                        gvy,
                        l,
                        dy as int,
                        dx as int,
                    ) && s.display[l] == 1;
                let current = emu.get_display()[loc];
                if current == 1 {
                    emu.set_v(0xF, 1);
                }
                emu.set_pixel(loc, current ^ 1);
                proof {
                    let next = large_progress(s, gvx, gvy, dy as int, dx + 1);
                    assert(current == s.display[loc as int]);
                    assert(emu@.display =~= next.display);
                    if current == 1 {
                        assert(large_hit_before(s, gvx, gvy, loc as int, dy as int, dx + 1));
                    } else if collided_before {
                        let j = choose|l: int|
                            0 <= l < s.display.len() && large_hit_before(
                                s,
                                gvx,
                                gvy,
                                l,
                                dy as int,
                                dx as int,
                            ) && s.display[l] == 1;
                        assert(large_hit_before(s, gvx, gvy, j, dy as int, dx + 1));
                    }
                    assert(emu@.v_registers =~= next.v_registers);
                    assert(emu@ =~= next);
                }
            } else {
                proof {
                    let next = large_progress(s, gvx, gvy, dy as int, dx + 1);
                    assert(emu@.display =~= next.display);
                    assert(emu@ =~= next);
                }
            }
            dx = dx + 1;
        }
        proof {
            lemma_large_row_end(s, gvx, gvy, dy as int);
        }
        dy = dy + 1;
    }
    proof {
        let done = large_progress(s, gvx, gvy, 16, 0);
        assert forall|loc: int| 0 <= loc < s.display.len() implies (large_hit_before(
            s,
            gvx,
            gvy,
            loc,
            16,
            0,
        ) <==> large_hit(s, gvx, gvy, loc)) by {
        }
        assert(done.display =~= spec_large_draw(s, registry, registry2).display);
    }
    emu.set_draw_flag(true);
    proof {
        assert(emu@ =~= spec_large_draw(s, registry, registry2));
    }
}


/// Whether every set pixel of the large sprite at the index register, drawn at (`vx`, `vy`),
/// lands on the display.
fn large_sprite_fits<C: Chip>(emu: &ChipEmulator<C>, vx: usize, vy: usize) -> (ok: bool)
    requires
        emu@.index_register + 31 < MEMORY_SIZE,
        vx < 256,
        vy < 256,
    ensures
        ok == large_draw_fits(emu@, vx as int, vy as int),
{
    let ghost s = emu@;
    proof {
        emu.lemma_wf();
    }
    let len = emu.get_display().len();
    let start_address = emu.get_index_register();
    let mut dy: usize = 0;
    while dy < 16
        invariant
            s == emu@,
            state_wf(s),
            len == s.display.len(),
            start_address == s.index_register,
            s.index_register + 31 < MEMORY_SIZE,
            vx < 256,
            vy < 256,
            dy <= 16,
            forall|r: int, c: int|
                0 <= r < dy && 0 <= c < 16 && vy + r < 64 && #[trigger] large_bit(large_line(s, r), c)
                    ==> (vx + c) % 128 + (vy + r) * 128 < len,
        decreases 16 - dy,
    {
        let row_addr = start_address + (dy * 2) as u16;
        let line = emu.get_memory(row_addr) as u16 * 256 + emu.get_memory(row_addr + 1) as u16;
        let mut dx: usize = 0;
        while dx < 16
            invariant
                s == emu@,
                len == s.display.len(),
                vx < 256,
                vy < 256,
                dy < 16,
                dx <= 16,
                line == large_line(s, dy as int),
                forall|r: int, c: int|
                    0 <= r < dy && 0 <= c < 16 && vy + r < 64 && #[trigger] large_bit(
                        large_line(s, r),
                        c,
                    ) ==> (vx + c) % 128 + (vy + r) * 128 < len,
                forall|c: int|
                    0 <= c < dx && vy + dy < 64 && #[trigger] large_bit(large_line(s, dy as int), c)
                        ==> (vx + c) % 128 + (vy + dy) * 128 < len,
            decreases 16 - dx,
        {
            if vy + dy < 64 && line & (0x8000u16 >> dx as u16) != 0 {
                if (vx + dx) % 128 + (vy + dy) * 128 >= len {
                    proof {
                        assert(large_bit(large_line(s, dy as int), dx as int));
                    }
                    return false;
                }
            }
            dx = dx + 1;
        }
        dy = dy + 1;
    }
    true
}

impl Opcode for SuperChipOpcode {
    open spec fn spec_decode(opcode: u16) -> Result<Self, UnkownOpCodeErr> {
        spec_decode_super(opcode)
    }

    open spec fn spec_useless() -> Self {
        SuperChipOpcode::Chip8(Chip8Opcode::Add { registry: 0, value: 0 })
    }

    open spec fn spec_can_execute(self, s: EmuState) -> bool {
        spec_can_execute_super(self, s)
    }

    open spec fn spec_execute(self, s: EmuState, random: u8) -> (EmuState, bool) {
        spec_execute_super(self, s, random)
    }

    fn decode(opcode: u16) -> (op: Result<Self, UnkownOpCodeErr>) {
        //gets the registry number
        //x
        let registry = ((opcode / 256) % 16) as u8;
        //y
        let registry2 = ((opcode / 16) % 16) as u8;
        let n = (opcode % 16) as u8;
        let operator_type = opcode / 4096;
        if operator_type == 0x0 {
            if opcode == 0xFF {
                Ok(Self::RaiseScreenResolution)
            } else if opcode == 0xFE {
                Ok(Self::LowerScreenResolution)
            } else if opcode == 0xFB {
                Ok(Self::ScrollRight)
            } else if opcode == 0xFC {
                Ok(Self::ScrollLeft)
            } else if opcode == 0xFD {
                Ok(Self::Exit)
            } else if opcode / 16 == 0xC {
                Ok(Self::ScrollDown { n })
            } else {
                match Chip8Opcode::decode(opcode) {
                    Ok(op) => Ok(Self::Chip8(op)),
                    Err(e) => Err(e),
                }
            }
        } else if operator_type == 0xD && n == 0 {
            Ok(Self::LargeDraw { registry, registry2 })
        } else if operator_type == 0xF && registry2 == 0x3 && n == 0x0 {
            Ok(Self::SetFontLarge { registry })
        } else if operator_type == 0xF && registry2 == 0x7 && n == 0x5 {
            Ok(Self::SaveToStorage { registry })
        } else if operator_type == 0xF && registry2 == 0x8 && n == 0x5 {
            Ok(Self::LoadFromStorage { registry })
        } else {
            match Chip8Opcode::decode(opcode) {
                Ok(op) => Ok(Self::Chip8(op)),
                Err(e) => Err(e),
            }
        }
    }

    fn useless_opcode() -> (op: Self) {
        Self::Chip8(Chip8Opcode::useless_opcode())
    }

    open spec fn spec_needs_entropy(&self) -> bool {
        *self matches SuperChipOpcode::Chip8(op) && op.spec_needs_entropy()
    }

    proof fn lemma_entropy_unused(self, s: EmuState, random: u8) {
    }

    fn needs_entropy(&self) -> (needs: bool) {
        match self {
            Self::Chip8(opcode) => opcode.needs_entropy(),
            _ => false,
        }
    }

    fn can_execute<C: Chip>(&self, emu: &ChipEmulator<C>) -> (ok: bool) {
        proof {
            emu.lemma_wf();
        }
        let loaded = emu.has_memory_loaded();
        match *self {
            Self::Chip8(op) => match op {
                Chip8Opcode::ShiftRight { registry, .. } => registry < 16,
                Chip8Opcode::ShiftLeft { registry, .. } => registry < 16,
                Chip8Opcode::StoreRegsIntoMem { max_registry } => max_registry < 16
                    && (emu.get_index_register() as usize + max_registry as usize) < MEMORY_SIZE,
                Chip8Opcode::LoadMemIntoRegs { max_registry } => (emu.get_index_register() as usize
                    + max_registry as usize) < MEMORY_SIZE && (!loaded || max_registry < 16),
                Chip8Opcode::BitOr { registry, registry2 } => registry < 16 && registry2 < 16,
                Chip8Opcode::BitAnd { registry, registry2 } => registry < 16 && registry2 < 16,
                Chip8Opcode::BitXor { registry, registry2 } => registry < 16 && registry2 < 16,
                Chip8Opcode::JumpPlusV0 { address } => true,
                _ => op.can_execute(emu),
            },
            Self::LowerScreenResolution => emu.is_resizable(),
            Self::RaiseScreenResolution => emu.is_resizable(),
            Self::ScrollRight => {
                let len = emu.get_display().len();
                len == 2048 || len == 8192
            },
            Self::ScrollLeft => {
                let len = emu.get_display().len();
                len == 2048 || len == 8192
            },
            Self::ScrollDown { n } => {
                let len = emu.get_display().len();
                (len == 2048 && n <= 32) || (len == 8192 && n <= 64)
            },
            Self::LargeDraw { registry, registry2 } => {
                if registry < 16 && registry2 < 16 && (emu.get_index_register() as usize) + 31
                    < MEMORY_SIZE {
                    let vx = if loaded && registry == 0xF {
                        0
                    } else {
                        emu.get_v(registry)
                    };
                    let vy = if loaded && registry2 == 0xF {
                        0
                    } else {
                        emu.get_v(registry2)
                    };
                    large_sprite_fits(emu, vx as usize, vy as usize)
                } else {
                    false
                }
            },
            Self::Exit => true,
            Self::LoadFromStorage { registry } => true,
            Self::SaveToStorage { registry } => true,
            Self::SetFontLarge { registry } => true,
        }
    }

    fn execute_opcode<C: Chip>(self, emu: &mut ChipEmulator<C>, random: u8) -> (increase: bool) {
        proof {
            emu.lemma_wf();
        }
        match self {
            Self::Chip8(opcode) => match opcode {
                Chip8Opcode::ShiftRight { registry, .. } => {
                    opcode_rshift(emu, registry, registry);
                    true
                },
                Chip8Opcode::ShiftLeft { registry, .. } => {
                    opcode_lshift(emu, registry, registry);
                    true
                },
                Chip8Opcode::StoreRegsIntoMem { max_registry } => {
                    opcode_store_reg_into_mem(emu, max_registry, false);
                    true
                },
                Chip8Opcode::LoadMemIntoRegs { max_registry } => {
                    opcode_load_mem_into_reg(emu, max_registry, false);
                    true
                },
                Chip8Opcode::BitOr { registry, registry2 } => {
                    let value = emu.get_v(registry) | emu.get_v(registry2);
                    emu.set_v(registry, value);
                    true
                },
                Chip8Opcode::BitAnd { registry, registry2 } => {
                    let value = emu.get_v(registry) & emu.get_v(registry2);
                    emu.set_v(registry, value);
                    true
                },
                Chip8Opcode::BitXor { registry, registry2 } => {
                    let value = emu.get_v(registry) ^ emu.get_v(registry2);
                    emu.set_v(registry, value);
                    true
                },
                Chip8Opcode::JumpPlusV0 { address } => {
                    let target = address as usize + emu.get_v(((address / 256) % 16) as u8) as usize;
                    emu.set_program_counter(target);
                    false
                },
                _ => opcode.execute_opcode(emu, random),
            },
            Self::LowerScreenResolution => {
                emu.resize_display(2048);
                true
            },
            Self::RaiseScreenResolution => {
                emu.resize_display(8192);
                true
            },
            Self::ScrollRight => {
                opcode_scroll_sideways(emu, true);
                true
            },
            Self::ScrollLeft => {
                opcode_scroll_sideways(emu, false);
                true
            },
            Self::ScrollDown { n } => {
                opcode_scroll_down(emu, n);
                true
            },
            Self::LargeDraw { registry, registry2 } => {
                opcode_large_draw(emu, registry, registry2);
                true
            },
            Self::Exit => {
                emu.reset();
                emu.set_draw_flag(true);
                true
            },
            Self::LoadFromStorage { registry } => {
                let request = match emu.get_game_id() {
                    None => StorageRequest::Failed(StorageError::NoGameId),
                    Some(id) => if registry > MAX_SAVED_REGISTER {
                        StorageRequest::Failed(StorageError::RegistyTooHigh)
                    } else {
                        StorageRequest::Load { game_id: id, max_registry: registry }
                    },
                };
                emu.set_storage_request(request);
                true
            },
            Self::SaveToStorage { registry } => {
                let request = match save_to_storage(emu, registry) {
                    Ok((game_id, contents)) => StorageRequest::Save { game_id, contents },
                    Err(e) => StorageRequest::Failed(e),
                };
                emu.set_storage_request(request);
                true
            },
            Self::SetFontLarge { registry } => {
                if emu.get_memory(BIG_FONT_START as u16) == 0 {
                    emu.load_font_big();
                }
                emu.set_index_register(registry as u16 * 10 + BIG_FONT_START as u16);
                true
            },
        }
    }

    proof fn lemma_execute_shape(self, s: EmuState, random: u8) {
        match self {
            SuperChipOpcode::Chip8(op) => match op {
                Chip8Opcode::ShiftRight { .. } => {},
                Chip8Opcode::ShiftLeft { .. } => {},
                Chip8Opcode::StoreRegsIntoMem { .. } => {},
                Chip8Opcode::LoadMemIntoRegs { .. } => {},
                Chip8Opcode::BitOr { .. } => {},
                Chip8Opcode::BitAnd { .. } => {},
                Chip8Opcode::BitXor { .. } => {},
                Chip8Opcode::JumpPlusV0 { .. } => {},
                _ => op.lemma_execute_shape(s, random),
            },
            _ => {},
        }
    }
}

} // verus!
