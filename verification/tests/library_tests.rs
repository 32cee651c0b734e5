use std::hash::{DefaultHasher, Hash, Hasher};

use purple8::chip8::chip8_emulator::{Chip8Clock, Chip8Emulator, TIMER_PERIOD_NANOS};
use purple8::chip8::chip8_opcode::{opcode_draw, Chip8Opcode, UnkownOpCodeErr};
use purple8::emulator::render::image_from_chip8_display;
use purple8::emulator::state::SoundCommand;
use purple8::emulator::{Chip, ChipEmulator, Opcode};
use purple8::super_chip::storage::{load_from_storage, parse_u8, save_to_storage};
use purple8::super_chip::super_chip_opcode::{StorageError, StorageRequest};
use purple8::super_chip::{SuperChipEmulator, SuperChipOpcode};

fn chip8_with(bytes: &[u8], cycles: usize) -> ChipEmulator<Chip8Emulator> {
    let mut emu = ChipEmulator::new(Chip8Emulator::new());
    emu.load_bytes_into_memory(bytes);
    for _ in 0..cycles {
        assert!(emu.cycle_is_defined());
        emu.cycle();
    }
    emu
}

fn super_with(bytes: &[u8], cycles: usize) -> ChipEmulator<SuperChipEmulator> {
    let mut emu = ChipEmulator::new(SuperChipEmulator::new());
    emu.load_bytes_into_memory(bytes);
    for _ in 0..cycles {
        assert!(emu.cycle_is_defined());
        emu.cycle();
    }
    emu
}

fn lit(display: &[u8]) -> Vec<usize> {
    display.iter().enumerate().filter(|(_, &p)| p == 1).map(|(i, _)| i).collect()
}

#[test]
fn decode_table_examples() {
    assert!(matches!(Chip8Opcode::decode(0x00E0), Ok(Chip8Opcode::ClearScreen)));
    assert!(matches!(Chip8Opcode::decode(0x00EE), Ok(Chip8Opcode::Return)));
    assert!(matches!(
        Chip8Opcode::decode(0x0123),
        Ok(Chip8Opcode::JumpToSystemAddress { address: 0x123 })
    ));
    assert!(matches!(
        Chip8Opcode::decode(0xD3A7),
        Ok(Chip8Opcode::Draw { x: 3, y: 0xA, n: 7 })
    ));
    assert!(matches!(
        Chip8Opcode::decode(0x8AB6),
        Ok(Chip8Opcode::ShiftRight { registry: 0xA, registry2: 0xB })
    ));
    assert!(matches!(
        Chip8Opcode::decode(0xC5F0),
        Ok(Chip8Opcode::Random { registry: 5, value: 0xF0 })
    ));
    assert!(matches!(Chip8Opcode::decode(0xF265), Ok(Chip8Opcode::LoadMemIntoRegs { max_registry: 2 })));
}

#[test]
fn decode_rejects_unknown_opcodes() {
    match Chip8Opcode::decode(0x0000) {
        Err(UnkownOpCodeErr(code)) => assert_eq!(code, 0),
        _ => panic!("blank memory decoded"),
    }
    match Chip8Opcode::decode(0x5AB1) {
        Err(e) => assert_eq!(e.code(), 0x5AB1),
        _ => panic!("5xy1 decoded"),
    }
    assert!(Chip8Opcode::decode(0xF0FF).is_err());
    assert!(Chip8Opcode::decode(0xE0FF).is_err());
    assert!(Chip8Opcode::decode(0x800F).is_err());
}

#[test]
fn super_decode_adds_its_instructions() {
    assert!(matches!(SuperChipOpcode::decode(0x00FF), Ok(SuperChipOpcode::RaiseScreenResolution)));
    assert!(matches!(SuperChipOpcode::decode(0x00FE), Ok(SuperChipOpcode::LowerScreenResolution)));
    assert!(matches!(SuperChipOpcode::decode(0x00FB), Ok(SuperChipOpcode::ScrollRight)));
    assert!(matches!(SuperChipOpcode::decode(0x00FC), Ok(SuperChipOpcode::ScrollLeft)));
    assert!(matches!(SuperChipOpcode::decode(0x00C3), Ok(SuperChipOpcode::ScrollDown { n: 3 })));
    assert!(matches!(
        SuperChipOpcode::decode(0xD120),
        Ok(SuperChipOpcode::LargeDraw { registry: 1, registry2: 2 })
    ));
    assert!(matches!(SuperChipOpcode::decode(0xF375), Ok(SuperChipOpcode::SaveToStorage { registry: 3 })));
    assert!(matches!(SuperChipOpcode::decode(0xF485), Ok(SuperChipOpcode::LoadFromStorage { registry: 4 })));
    assert!(matches!(SuperChipOpcode::decode(0x00FD), Ok(SuperChipOpcode::Exit)));
    assert!(matches!(SuperChipOpcode::decode(0xF030), Ok(SuperChipOpcode::SetFontLarge { registry: 0 })));
    assert!(matches!(SuperChipOpcode::decode(0xF230), Ok(SuperChipOpcode::SetFontLarge { registry: 2 })));
}

#[test]
fn super_decode_extends_chip8_on_other_opcodes() {
    assert!(matches!(
        SuperChipOpcode::decode(0xD125),
        Ok(SuperChipOpcode::Chip8(Chip8Opcode::Draw { x: 1, y: 2, n: 5 }))
    ));
    assert!(matches!(
        SuperChipOpcode::decode(0x6A12),
        Ok(SuperChipOpcode::Chip8(Chip8Opcode::LoadVRegistry { registry: 0xA, value: 0x12 }))
    ));
    match SuperChipOpcode::decode(0x0000) {
        Err(e) => assert_eq!(e.code(), 0),
        _ => panic!("blank memory decoded"),
    }
    match SuperChipOpcode::decode(0xF0FF) {
        Err(e) => assert_eq!(e.code(), 0xF0FF),
        _ => panic!("F0FF decoded"),
    }
}

#[test]
fn blank_memory_only_moves_on() {
    let emu = chip8_with(&[0x00, 0x00, 0x00, 0x00], 2);
    assert_eq!(emu.get_program_counter(), 0x204);
    for r in 0..16 {
        assert_eq!(emu.get_v(r), 0);
    }
    assert!(matches!(emu.current_op_code(), Chip8Opcode::Add { registry: 0, value: 0 }));
    let emu = super_with(&[0x00, 0x00], 1);
    assert_eq!(emu.get_program_counter(), 0x202);
}

#[test]
fn nothing_runs_without_a_program() {
    let mut emu = ChipEmulator::new(Chip8Emulator::new());
    emu.set_memory(0, 0x60);
    emu.set_memory(1, 0x05);
    emu.cycle();
    emu.set_v(0, 9);
    emu.tick_timers();
    emu.increase_program_counter();
    assert_eq!(emu.get_program_counter(), 0);
    assert_eq!(emu.get_v(0), 0);
    assert!(!emu.has_memory_loaded());
}

#[test]
fn draw_twice_erases_sprite() {
    // I = 0x20A, V0 = 60, V1 = 30, draw 3 rows twice
    let program = [0xA2, 0x0A, 0x60, 0x3C, 0x61, 0x1E, 0xD0, 0x13, 0xD0, 0x13, 0xFF, 0x81, 0xC3];
    let emu = chip8_with(&program, 4);
    assert_eq!(emu.get_v(0xF), 0);
    // clipped at the right and bottom edges: columns 60..63, rows 30..31
    assert_eq!(lit(emu.get_display()), vec![1980, 1981, 1982, 1983, 2044]);
    let emu = chip8_with(&program, 5);
    assert_eq!(emu.get_v(0xF), 1);
    assert!(emu.get_display().iter().all(|&p| p == 0));
    assert!(emu.get_draw_flag());
}

#[test]
fn draw_wraps_start_coordinates() {
    // V0 = 66 wraps to column 2, V1 = 33 to row 1
    let emu = chip8_with(&[0xA2, 0x08, 0x60, 0x42, 0x61, 0x21, 0xD0, 0x11, 0x80], 4);
    assert_eq!(lit(emu.get_display()), vec![66]);
}

#[test]
fn call_then_return_resumes() {
    let emu = chip8_with(&[0x22, 0x06, 0x00, 0x00, 0x00, 0x00, 0x00, 0xEE], 2);
    assert_eq!(emu.get_program_counter(), 0x202);
    assert_eq!(emu.get_stack_pointer(), 0);
}

#[test]
fn bcd_digits_spell_register() {
    let emu = chip8_with(&[0xA3, 0x00, 0x60, 0xFF, 0xF0, 0x33], 3);
    let digits = [emu.get_memory(0x300), emu.get_memory(0x301), emu.get_memory(0x302)];
    assert_eq!(digits, [2, 5, 5]);
    assert_eq!(digits[0] as u32 * 100 + digits[1] as u32 * 10 + digits[2] as u32, 255);
}

#[test]
fn store_then_load_registers_round_trip() {
    // V0..V2 = 7, 8, 9; store at 0x300; clear them; load back from 0x300
    let program = [
        0x60, 0x07, 0x61, 0x08, 0x62, 0x09, 0xA3, 0x00, 0xF2, 0x55, 0x60, 0x00, 0x61, 0x00, 0x62,
        0x00, 0xA3, 0x00, 0xF2, 0x65,
    ];
    let emu = chip8_with(&program, 10);
    assert_eq!([emu.get_v(0), emu.get_v(1), emu.get_v(2)], [7, 8, 9]);
    assert_eq!(emu.get_index_register(), 0x303);
}

#[test]
fn super_chip_store_keeps_index() {
    let emu = super_with(&[0x60, 0x07, 0xA3, 0x00, 0xF0, 0x55], 3);
    assert_eq!(emu.get_memory(0x300), 7);
    assert_eq!(emu.get_index_register(), 0x300);
}

#[test]
fn shift_quirks_differ_between_sets() {
    // V1 = 6; 8016: CHIP-8 shifts V1 into V0, SUPER-CHIP shifts V0 in place
    let emu = chip8_with(&[0x61, 0x06, 0x80, 0x16], 2);
    assert_eq!(emu.get_v(0), 3);
    let emu = super_with(&[0x61, 0x06, 0x80, 0x16], 2);
    assert_eq!(emu.get_v(0), 0);
    assert_eq!(emu.get_v(0xF), 0);
}

#[test]
fn logic_flag_quirk_differs_between_sets() {
    // VF = 1, V0 = 1, V1 = 2, 8011
    let program = [0x6F, 0x01, 0x60, 0x01, 0x61, 0x02, 0x80, 0x11];
    assert_eq!(chip8_with(&program, 4).get_v(0xF), 0);
    assert_eq!(super_with(&program, 4).get_v(0xF), 1);
}

#[test]
fn super_jump_plus_uses_register_of_address() {
    // V2 = 0x10, B230 jumps to 0x230 + V2
    let emu = super_with(&[0x62, 0x10, 0xB2, 0x30], 2);
    assert_eq!(emu.get_program_counter(), 0x240);
}

#[test]
fn subtraction_borrow_clears_flag() {
    let emu = chip8_with(&[0x60, 0x03, 0x61, 0x05, 0x80, 0x15], 3);
    assert_eq!(emu.get_v(0), 254);
    assert_eq!(emu.get_v(0xF), 0);
}

#[test]
fn add_immediate_wraps_without_flag() {
    let emu = chip8_with(&[0x60, 0xFF, 0x70, 0x02], 2);
    assert_eq!(emu.get_v(0), 1);
    assert_eq!(emu.get_v(0xF), 0);
}

#[test]
fn random_masks_the_entropy() {
    let mut emu = ChipEmulator::new(Chip8Emulator::new());
    emu.load_bytes_into_memory(&[0xC0, 0x0F]);
    emu.cycle_with_random(0xAB);
    assert_eq!(emu.get_v(0), 0x0B);
    let emu = chip8_with(&[0xC0, 0x0F], 1);
    assert_eq!(emu.get_v(0) & 0xF0, 0);
}

#[test]
fn font_start_loads_font() {
    let emu = chip8_with(&[0xF3, 0x29], 1);
    assert_eq!(emu.get_index_register(), 15);
    assert_eq!(emu.get_memory(0), 0xF0);
    assert_eq!(emu.get_memory(79), 0x80);
}

#[test]
fn large_font_loads_after_small_font() {
    let mut emu = ChipEmulator::new(SuperChipEmulator::new());
    emu.load_bytes_into_memory(&[0x00, 0x00]);
    assert!(SuperChipOpcode::SetFontLarge { registry: 2 }.execute_opcode(&mut emu, 0));
    assert_eq!(emu.get_index_register(), 101);
    assert_eq!(emu.get_memory(81), 0xFF);
    assert_eq!(emu.get_memory(240), 0xC0);
    assert_eq!(emu.get_memory(0), 0);
}

#[test]
fn exit_resets_the_emulator() {
    let mut emu = super_with(&[0x60, 0x05], 1);
    assert!(SuperChipOpcode::Exit.execute_opcode(&mut emu, 0));
    assert!(!emu.has_memory_loaded());
    assert_eq!(emu.get_v(0), 0);
    assert_eq!(emu.get_game_id(), None);
    assert!(emu.get_draw_flag());

    // a running program that reaches 00FD ends the same way
    let emu = super_with(&[0x60, 0x05, 0x00, 0xFD], 2);
    assert!(!emu.has_memory_loaded());
    assert_eq!(emu.get_v(0), 0);
}

#[test]
fn timers_count_down_to_zero() {
    let mut emu = chip8_with(&[0x60, 0x02, 0xF0, 0x15, 0xF0, 0x18], 3);
    assert_eq!(emu.take_sound_request(), Some(SoundCommand::Play));
    emu.tick_timers();
    assert_eq!((emu.get_delay_time(), emu.get_sound_timer()), (1, 1));
    assert_eq!(emu.take_sound_request(), None);
    emu.tick_timers();
    emu.tick_timers();
    assert_eq!((emu.get_delay_time(), emu.get_sound_timer()), (0, 0));
    assert_eq!(emu.take_sound_request(), Some(SoundCommand::Pause));
}

#[test]
fn resolution_round_trip_blanks_screen() {
    let mut emu = super_with(&[0x00, 0xFF], 1);
    emu.get_display_mut()[8000] = 1;
    assert!(SuperChipOpcode::LowerScreenResolution.execute_opcode(&mut emu, 0));
    assert_eq!(emu.get_display().len(), 2048);
    assert!(emu.get_display().iter().all(|&p| p == 0));
    assert_eq!(emu.get_display_size(), (64, 32));
}

#[test]
fn scrolling_moves_pixels() {
    let mut emu = super_with(&[0x00, 0xFB], 0);
    emu.get_display_mut()[5] = 1;
    emu.get_display_mut()[62] = 1;
    emu.cycle();
    assert_eq!(lit(emu.get_display()), vec![9]);

    let mut emu = super_with(&[0x00, 0xFC], 0);
    emu.get_display_mut()[5] = 1;
    emu.get_display_mut()[66] = 1;
    emu.cycle();
    assert_eq!(lit(emu.get_display()), vec![1]);

    let mut emu = super_with(&[0x00, 0xC2], 0);
    emu.get_display_mut()[3] = 1;
    emu.get_display_mut()[2047] = 1;
    emu.cycle();
    assert_eq!(lit(emu.get_display()), vec![131]);
}

#[test]
fn scroll_left_then_right_restores_inner_columns() {
    let mut emu = super_with(&[0x00, 0xFC, 0x00, 0xFB], 0);
    for i in [1usize, 10, 70, 2000] {
        emu.get_display_mut()[i] = 1;
    }
    emu.cycle();
    emu.cycle();
    assert_eq!(lit(emu.get_display()), vec![10, 70, 2000]);
}

#[test]
fn large_draw_on_high_resolution() {
    // hires, I = 0x208, V0 = 126 (wraps), V1 = 2, DXY0, sprite rows of 0x8001
    let mut program = vec![0x00, 0xFF, 0xA2, 0x0C, 0x60, 0x7E, 0x61, 0x02, 0xD0, 0x10, 0x00, 0x00];
    for _ in 0..16 {
        program.extend_from_slice(&[0x80, 0x01]);
    }
    let emu = super_with(&program, 5);
    let pixels = lit(emu.get_display());
    assert_eq!(pixels.len(), 32);
    assert!(pixels.contains(&(126 + 2 * 128)));
    assert!(pixels.contains(&(13 + 2 * 128)));
    assert!(pixels.contains(&(13 + 17 * 128)));
    assert_eq!(emu.get_v(0xF), 0);
}

#[test]
fn large_draw_that_leaves_low_resolution_screen_is_not_defined() {
    let mut program = vec![0xA2, 0x06, 0x61, 0x20, 0xD0, 0x10];
    program.extend_from_slice(&[0xFF; 32]);
    let mut emu = super_with(&program, 2);
    assert!(!emu.cycle_is_defined());
    emu.set_v(1, 0);
    assert!(emu.cycle_is_defined());
}

#[test]
fn return_with_empty_stack_is_not_defined() {
    let emu = chip8_with(&[0x00, 0xEE], 0);
    assert!(!emu.cycle_is_defined());
}

#[test]
fn save_then_load_restores_registers() {
    let program = [0x60, 0x2A, 0x61, 0x07, 0x62, 0xFF, 0xF2, 0x75];
    let mut saver = super_with(&program, 4);
    let (game_id, contents) = match saver.take_storage_request() {
        Some(StorageRequest::Save { game_id, contents }) => (game_id, contents),
        _ => panic!("no save request"),
    };
    assert_eq!(contents, b"0:42\n1:7\n2:255".to_vec());
    assert_eq!(Some(game_id), saver.get_game_id());
    assert!(saver.take_storage_request().is_none());

    let mut loader = super_with(&program, 0);
    assert!(load_from_storage(&mut loader, &contents, 2).is_ok());
    assert_eq!([loader.get_v(0), loader.get_v(1), loader.get_v(2)], [42, 7, 255]);
}

#[test]
fn load_request_and_partial_load() {
    let mut emu = super_with(&[0xF1, 0x85], 1);
    match emu.take_storage_request() {
        Some(StorageRequest::Load { game_id, max_registry }) => {
            assert_eq!(Some(game_id), emu.get_game_id());
            assert_eq!(max_registry, 1);
        },
        _ => panic!("no load request"),
    }
    // keys above the limit are skipped, lines without ':' too, CRLF endings are accepted
    assert!(load_from_storage(&mut emu, b"0:+9\r\n3:4\nnote\n1:010\n", 1).is_ok());
    assert_eq!([emu.get_v(0), emu.get_v(1), emu.get_v(3)], [9, 10, 0]);
    // a bad line stops the load, earlier lines stay
    let result = load_from_storage(&mut emu, b"0:1\n1:x\n", 1);
    assert!(matches!(result, Err(StorageError::InvailidKey)));
    assert_eq!([emu.get_v(0), emu.get_v(1)], [1, 10]);
}

#[test]
fn storage_errors() {
    let mut emu = ChipEmulator::new(SuperChipEmulator::new());
    assert!(matches!(save_to_storage(&emu, 0), Err(StorageError::NoGameId)));
    assert!(matches!(load_from_storage(&mut emu, b"0:1", 0), Err(StorageError::NoGameId)));
    assert!(SuperChipOpcode::SaveToStorage { registry: 0 }.execute_opcode(&mut emu, 0));
    assert!(matches!(
        emu.take_storage_request(),
        Some(StorageRequest::Failed(StorageError::NoGameId))
    ));
    let mut emu = super_with(&[0xF8, 0x75, 0xF9, 0x85], 2);
    assert!(matches!(
        emu.take_storage_request(),
        Some(StorageRequest::Failed(StorageError::RegistyTooHigh))
    ));
    assert!(matches!(save_to_storage(&emu, 8), Err(StorageError::RegistyTooHigh)));
    assert!(matches!(load_from_storage(&mut emu, b"0:1", 8), Err(StorageError::RegistyTooHigh)));
    assert!(matches!(load_from_storage(&mut emu, b"0:256", 3), Err(StorageError::InvailidKey)));
    assert!(matches!(load_from_storage(&mut emu, b"a:1", 3), Err(StorageError::InvailidKey)));
}

#[test]
fn parse_u8_agrees_with_std() {
    let inputs: [&str; 14] =
        ["0", "7", "255", "256", "+5", "+", "", "-1", "-0", "007", "12a", " 1", "1000", "+255"];
    for input in inputs {
        assert_eq!(parse_u8(input.as_bytes()), input.parse::<u8>().ok(), "input {input:?}");
    }
}

#[test]
fn game_id_is_the_hash_of_the_program() {
    let program = [0x12u8, 0x00, 0x60, 0x01];
    let emu = chip8_with(&program, 0);
    let mut hasher = DefaultHasher::new();
    program[..].hash(&mut hasher);
    assert_eq!(emu.get_game_id(), Some(hasher.finish()));
}

#[test]
fn wait_for_key_blocks_until_release() {
    let mut emu = chip8_with(&[0xF3, 0x0A], 3);
    assert_eq!(emu.get_program_counter(), 0x200);
    emu.set_key(0xB, true);
    emu.cycle();
    assert_eq!(emu.get_active_key(), Some(0xB));
    assert!(emu.has_active_key());
    emu.cycle();
    assert_eq!(emu.get_program_counter(), 0x200);
    emu.set_key(0xB, false);
    emu.cycle();
    assert_eq!(emu.get_v(3), 0xB);
    assert_eq!(emu.get_program_counter(), 0x202);
}

#[test]
fn clone_emulator_carries_the_machine() {
    let emu = chip8_with(&[0x60, 0x05, 0xA2, 0x22], 2);
    let moved = emu.clone_emulator(SuperChipEmulator::new());
    assert_eq!(moved.get_v(0), 5);
    assert_eq!(moved.get_index_register(), 0x222);
    assert_eq!(moved.get_program_counter(), 0x204);
    assert_eq!(moved.get_game_id(), emu.get_game_id());
    assert!(moved.is_resizable());
    assert!(!emu.is_resizable());
}

#[test]
fn image_is_rgba_of_pixels() {
    let pixels = image_from_chip8_display(&[1, 0, 2]);
    assert_eq!(pixels, vec![255, 255, 255, 255, 0, 0, 0, 255, 0, 0, 0, 255]);
}

#[test]
fn clock_decides_timer_ticks() {
    let mut clock = Chip8Clock::new();
    assert!(clock.is_due(TIMER_PERIOD_NANOS));
    assert!(!clock.is_due(TIMER_PERIOD_NANOS - 1));
    let _ = clock.tick_chip8_timers();
    let start = std::time::Instant::now();
    while start.elapsed() < std::time::Duration::from_millis(20) {}
    assert!(clock.tick_chip8_timers());
    assert!(!clock.tick_chip8_timers());
}

#[test]
fn reset_gives_blank_emulator() {
    let mut emu = chip8_with(&[0x60, 0x05, 0xA2, 0x22], 2);
    emu.reset();
    assert!(!emu.has_memory_loaded());
    assert_eq!(emu.get_v(0), 0);
    assert_eq!(emu.get_index_register(), 0);
    assert_eq!(emu.get_program_counter(), 0);
    assert_eq!(emu.get_memory_snapshot(), [0; 4096]);
}

#[test]
fn write_then_read_memory_and_register() {
    let mut emu = chip8_with(&[0x00, 0x00], 0);
    emu.set_memory(0x345, 0xAB);
    assert_eq!(emu.get_memory(0x345), 0xAB);
    emu.set_v(7, 0x42);
    assert_eq!(emu.get_v(7), 0x42);

    let mut blank = ChipEmulator::new(Chip8Emulator::new());
    blank.set_v(7, 0x42);
    assert_eq!(blank.get_v(7), 0);
}

#[test]
fn push_then_pop_returns_last_address() {
    let mut emu = chip8_with(&[0x00, 0x00], 0);
    emu.push_stack(0x300);
    emu.push_stack(0x456);
    assert_eq!(emu.get_stack_pointer(), 2);
    assert_eq!(emu.pop_stack(), 0x456);
    assert_eq!(emu.get_stack_pointer(), 1);
    assert_eq!(emu.pop_stack(), 0x300);
    assert_eq!(emu.get_stack_pointer(), 0);
}

#[test]
fn tall_draw_with_blank_tail_rows() {
    // V1 = 31: the sprite starts on the last row; only its first row has set bits, so the
    // blank rows that would pass row 255 are never placed
    let mut emu = chip8_with(&[0x61, 0x1F, 0xA3, 0x00], 2);
    emu.set_memory(0x300, 0xFF);
    assert!(Chip8Opcode::Draw { x: 0, y: 1, n: 240 }.can_execute(&emu));
    opcode_draw(&mut emu, 0, 1, 240);
    assert_eq!(lit(emu.get_display()), (31 * 64..31 * 64 + 8).collect::<Vec<usize>>());
    assert_eq!(emu.get_v(0xF), 0);

    // a set bit on a row past 255 cannot be placed
    emu.set_memory(0x300 + 230, 0x80);
    assert!(!Chip8Opcode::Draw { x: 0, y: 1, n: 240 }.can_execute(&emu));
}

#[test]
fn clock_step_on_given_readings() {
    let mut clock = Chip8Clock::new();
    let now = std::time::Instant::now();
    assert!(!clock.tick_at(TIMER_PERIOD_NANOS - 1, now));
    assert!(clock.tick_at(TIMER_PERIOD_NANOS, now));
    assert!(clock.tick_at(TIMER_PERIOD_NANOS + 5, now));
    assert!(!clock.tick_at(0, now));
}
