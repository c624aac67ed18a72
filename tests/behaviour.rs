use chip8::display::{HEIGHT, WIDTH};
use chip8::emulator::MAX_ROM_SIZE;
use chip8::instruction::Instruction;
use chip8::{Chip8, Chip8Emulator, Fault, Registers, Screen, Speaker, Stack};

struct SilentSpeaker {
    beeps: Vec<bool>,
}

impl Speaker for SilentSpeaker {
    fn beep(&mut self, status: bool) {
        self.beeps.push(status);
    }
}

fn machine_with(rom: &[u8]) -> Chip8<SilentSpeaker> {
    let mut chip8 = Chip8::new(SilentSpeaker { beeps: Vec::new() });
    assert_eq!(chip8.load_rom(rom.to_vec()), Ok(rom.len()));
    chip8
}

#[test]
fn register_round_trip_for_every_register() {
    let mut registers = Registers::new();
    for n in 0..16 {
        for v in [0u8, 1, 127, 128, 255] {
            registers.set_v(n, v);
            assert_eq!(registers.get_v(n), v);
        }
    }
}

#[test]
fn stack_returns_pushed_values_in_reverse_order() {
    let mut registers = Registers::new();
    let mut stack = Stack::new();
    for k in 0..16u16 {
        stack.push(&mut registers, 0x200 + 2 * k);
    }
    assert_eq!(registers.get_sp(), 16);
    for k in (0..16u16).rev() {
        assert_eq!(stack.pop(&mut registers), 0x200 + 2 * k);
    }
    assert_eq!(registers.get_sp(), 0);
}

#[test]
fn seventeenth_nested_call_overflows_the_stack() {
    // Each instruction calls the next one: 2202, 2204, ...
    let mut rom = Vec::new();
    for k in 1..=17u16 {
        let target = 0x200 + 2 * k;
        rom.push(0x20 | (target >> 8) as u8);
        rom.push((target & 0xFF) as u8);
    }
    let mut chip8 = machine_with(&rom);
    for k in 1..=16u16 {
        assert_eq!(chip8.step(0), Ok(()));
        assert_eq!(chip8.get_sp() as u16, k);
    }
    let pc = chip8.registers.get_pc();
    assert_eq!(chip8.step(0), Err(Fault::StackOverflow));
    assert_eq!(chip8.get_sp(), 16);
    assert_eq!(chip8.registers.get_pc(), pc);
}

#[test]
fn return_on_empty_stack_underflows() {
    let mut chip8 = machine_with(&[0x00, 0xEE]);
    assert_eq!(chip8.step(0), Err(Fault::StackUnderflow));
    assert_eq!(chip8.registers.get_pc(), 0x200);
}

#[test]
fn call_and_return_come_back_after_the_call() {
    // 200: CALL 206; 202: LD V1, 9; 204: JP 204; 206: LD V0, 7; 208: RET
    let mut chip8 = machine_with(&[0x22, 0x06, 0x61, 0x09, 0x12, 0x04, 0x60, 0x07, 0x00, 0xEE]);
    for _ in 0..4 {
        assert_eq!(chip8.step(0), Ok(()));
    }
    assert_eq!(chip8.registers.get_v(0), 7);
    assert_eq!(chip8.registers.get_v(1), 9);
    assert_eq!(chip8.registers.get_pc(), 0x204);
    assert_eq!(chip8.get_sp(), 0);
}

#[test]
fn drawing_twice_collides_and_restores_the_screen() {
    let mut screen = Screen::new();
    let sprite = [0xF0, 0x90, 0xF0, 0x90, 0x90];
    assert!(!screen.draw_sprite(10, 12, &sprite));
    assert!(screen.is_pixel_set(10, 12));
    assert!(screen.is_pixel_set(13, 16));
    assert!(!screen.is_pixel_set(11, 13));
    assert!(screen.draw_sprite(10, 12, &sprite));
    for y in 0..HEIGHT {
        for x in 0..WIDTH {
            assert!(!screen.is_pixel_set(x, y));
        }
    }
}

#[test]
fn sprite_wraps_at_the_right_edge() {
    let mut screen = Screen::new();
    assert!(!screen.draw_sprite(60, 0, &[0xFF]));
    for x in [60, 61, 62, 63, 0, 1, 2, 3] {
        assert!(screen.is_pixel_set(x, 0));
    }
    for x in 4..60 {
        assert!(!screen.is_pixel_set(x, 0));
    }
}

#[test]
fn sprite_wraps_at_the_bottom_edge() {
    let mut screen = Screen::new();
    assert!(!screen.draw_sprite(0, 31, &[0x80, 0x80]));
    assert!(screen.is_pixel_set(0, 31));
    assert!(screen.is_pixel_set(0, 0));
}

#[test]
fn add_with_carry_sets_the_flag() {
    // LD V1, 250; LD V2, 10; ADD V1, V2
    let mut chip8 = machine_with(&[0x61, 250, 0x62, 10, 0x81, 0x24]);
    for _ in 0..3 {
        assert_eq!(chip8.step(0), Ok(()));
    }
    assert_eq!(chip8.registers.get_v(1), 4);
    assert_eq!(chip8.registers.get_v(0xF), 1);
}

#[test]
fn subtract_with_borrow_clears_the_flag() {
    // LD V1, 10; LD V2, 250; SUB V1, V2
    let mut chip8 = machine_with(&[0x61, 10, 0x62, 250, 0x81, 0x25]);
    for _ in 0..3 {
        assert_eq!(chip8.step(0), Ok(()));
    }
    assert_eq!(chip8.registers.get_v(1), 16);
    assert_eq!(chip8.registers.get_v(0xF), 0);
}

#[test]
fn two_instruction_program_runs_end_to_end() {
    let mut chip8 = machine_with(&[0x60, 0x05, 0x70, 0x03]);
    assert_eq!(chip8.step(0), Ok(()));
    assert_eq!(chip8.step(0), Ok(()));
    assert_eq!(chip8.registers.get_v(0), 8);
    assert_eq!(chip8.registers.get_pc(), 0x204);
}

#[test]
fn font_lookup_points_at_five_bytes_per_glyph() {
    // LD V3, 0xA; LD F, V3
    let mut chip8 = machine_with(&[0x63, 0x0A, 0xF3, 0x29]);
    assert_eq!(chip8.step(0), Ok(()));
    assert_eq!(chip8.step(0), Ok(()));
    assert_eq!(chip8.registers.get_i(), 50);
}

#[test]
fn delay_timer_stops_at_zero() {
    let mut chip8 = Chip8::new(SilentSpeaker { beeps: Vec::new() });
    chip8.registers.set_dt(1);
    chip8.update_timers();
    assert_eq!(chip8.registers.get_dt(), 0);
    chip8.update_timers();
    assert_eq!(chip8.registers.get_dt(), 0);
}

#[test]
fn sound_timer_drives_the_speaker() {
    let mut chip8 = Chip8::new(SilentSpeaker { beeps: Vec::new() });
    chip8.registers.set_st(2);
    chip8.update_timers();
    chip8.update_timers();
    chip8.update_timers();
    assert_eq!(chip8.registers.get_st(), 0);
    assert_eq!(chip8.speaker.beeps, vec![true, true, false]);
}

#[test]
fn rom_filling_program_space_loads() {
    let mut chip8 = Chip8::new(SilentSpeaker { beeps: Vec::new() });
    let rom = vec![0xAB; MAX_ROM_SIZE];
    assert_eq!(chip8.load_rom(rom), Ok(3584));
    assert_eq!(chip8.memory.get(0xFFF), 0xAB);
}

#[test]
fn oversized_rom_is_refused_untouched() {
    let mut chip8 = Chip8::new(SilentSpeaker { beeps: Vec::new() });
    let rom = vec![0xAB; MAX_ROM_SIZE + 1];
    assert!(chip8.load_rom(rom).is_err());
    assert_eq!(chip8.memory.get(0x200), 0);
}

#[test]
fn fetch_past_end_of_memory_faults() {
    let mut chip8 = machine_with(&[0x1F, 0xFF]);
    assert_eq!(chip8.step(0), Ok(()));
    assert_eq!(chip8.registers.get_pc(), 0xFFF);
    assert_eq!(chip8.step(0), Err(Fault::AddressOutOfRange));
}

#[test]
fn key_skip_on_a_non_key_faults() {
    // LD V2, 16; SKP V2
    let mut chip8 = machine_with(&[0x62, 0x10, 0xE2, 0x9E]);
    assert_eq!(chip8.step(0), Ok(()));
    assert_eq!(chip8.step(0), Err(Fault::KeyOutOfRange));
    assert_eq!(chip8.registers.get_pc(), 0x202);
}

#[test]
fn key_skips_follow_the_keypad() {
    // LD V2, 5; SKP V2; SKNP V2
    let mut chip8 = machine_with(&[0x62, 0x05, 0xE2, 0x9E, 0xE2, 0xA1]);
    chip8.key_down(5);
    assert_eq!(chip8.step(0), Ok(()));
    assert_eq!(chip8.step(0), Ok(()));
    assert_eq!(chip8.registers.get_pc(), 0x206);
    chip8.key_up(5);
    chip8.registers.set_pc(0x204);
    assert_eq!(chip8.step(0), Ok(()));
    assert_eq!(chip8.registers.get_pc(), 0x208);
}

#[test]
fn key_wait_repeats_until_a_key_is_down() {
    let mut chip8 = machine_with(&[0xF4, 0x0A]);
    assert_eq!(chip8.step(0), Ok(()));
    assert_eq!(chip8.registers.get_pc(), 0x200);
    chip8.key_down(9);
    chip8.key_down(3);
    assert_eq!(chip8.step(0), Ok(()));
    assert_eq!(chip8.registers.get_v(4), 3);
    assert_eq!(chip8.registers.get_pc(), 0x202);
}

#[test]
fn sprite_draw_out_of_memory_faults() {
    // LD I, FFE; DRW V0, V0, 5
    let mut chip8 = machine_with(&[0xAF, 0xFE, 0xD0, 0x05]);
    assert_eq!(chip8.step(0), Ok(()));
    assert_eq!(chip8.step(0), Err(Fault::AddressOutOfRange));
}

#[test]
fn draw_instruction_reports_collision_in_vf() {
    // LD I, 50 (glyph 0); DRW V0, V1, 5 twice
    let mut chip8 = machine_with(&[0xA0, 0x50, 0xD0, 0x15, 0xD0, 0x15]);
    assert_eq!(chip8.step(0), Ok(()));
    assert_eq!(chip8.step(0), Ok(()));
    assert_eq!(chip8.registers.get_v(0xF), 0);
    assert!(chip8.is_pixel_set(0, 0));
    assert!(chip8.is_pixel_set(3, 4));
    assert_eq!(chip8.step(0), Ok(()));
    assert_eq!(chip8.registers.get_v(0xF), 1);
    assert!(!chip8.is_pixel_set(0, 0));
}

#[test]
fn clear_screen_turns_every_pixel_off() {
    let mut chip8 = machine_with(&[0x00, 0xE0]);
    chip8.toggle_pixel(7, 9);
    assert_eq!(chip8.step(0), Ok(()));
    assert!(!chip8.is_pixel_set(7, 9));
}

#[test]
fn bcd_store_writes_three_digits() {
    // LD V5, 254; LD I, 300; LD B, V5
    let mut chip8 = machine_with(&[0x65, 254, 0xA3, 0x00, 0xF5, 0x33]);
    for _ in 0..3 {
        assert_eq!(chip8.step(0), Ok(()));
    }
    assert_eq!(chip8.memory.read(0x300, 3), [2, 5, 4]);
}

#[test]
fn register_block_store_and_load() {
    // LD V0, 1; LD V1, 2; LD V2, 3; LD I, 400; LD [I], V2; LD V0, 0; LD V1, 0; LD V1, [I]
    let rom = [
        0x60, 1, 0x61, 2, 0x62, 3, 0xA4, 0x00, 0xF2, 0x55, 0x60, 0, 0x61, 0, 0xF1, 0x65,
    ];
    let mut chip8 = machine_with(&rom);
    for _ in 0..8 {
        assert_eq!(chip8.step(0), Ok(()));
    }
    assert_eq!(chip8.memory.read(0x400, 4), [1, 2, 3, 0]);
    assert_eq!(chip8.registers.get_v(0), 1);
    assert_eq!(chip8.registers.get_v(1), 2);
    assert_eq!(chip8.registers.get_v(2), 3);
    assert_eq!(chip8.registers.get_i(), 0x400);
}

#[test]
fn shifts_and_reverse_subtract() {
    // LD V1, 0x81; SHR V1; LD V2, 0x81; SHL V2; LD V3, 5; LD V4, 3; SUBN V3, V4
    let rom = [0x61, 0x81, 0x81, 0x16, 0x62, 0x81, 0x82, 0x2E, 0x63, 5, 0x64, 3, 0x83, 0x47];
    let mut chip8 = machine_with(&rom);
    assert_eq!(chip8.step(0), Ok(()));
    assert_eq!(chip8.step(0), Ok(()));
    assert_eq!(chip8.registers.get_v(1), 0x40);
    assert_eq!(chip8.registers.get_v(0xF), 1);
    assert_eq!(chip8.step(0), Ok(()));
    assert_eq!(chip8.step(0), Ok(()));
    assert_eq!(chip8.registers.get_v(2), 0x02);
    assert_eq!(chip8.registers.get_v(0xF), 1);
    for _ in 0..3 {
        assert_eq!(chip8.step(0), Ok(()));
    }
    assert_eq!(chip8.registers.get_v(3), 254);
    assert_eq!(chip8.registers.get_v(0xF), 0);
}

#[test]
fn logic_and_immediate_add_wrap() {
    // LD V1, 0xF0; LD V2, 0x3C; OR; then AND, XOR on fresh copies; ADD V5, 0xFF
    let rom = [
        0x61, 0xF0, 0x62, 0x3C, 0x83, 0x10, 0x83, 0x21, 0x84, 0x10, 0x84, 0x22, 0x86, 0x10, 0x86,
        0x23, 0x65, 0x02, 0x75, 0xFF,
    ];
    let mut chip8 = machine_with(&rom);
    for _ in 0..10 {
        assert_eq!(chip8.step(0), Ok(()));
    }
    assert_eq!(chip8.registers.get_v(3), 0xFC);
    assert_eq!(chip8.registers.get_v(4), 0x30);
    assert_eq!(chip8.registers.get_v(6), 0xCC);
    assert_eq!(chip8.registers.get_v(5), 0x01);
    assert_eq!(chip8.registers.get_v(0xF), 0);
}

#[test]
fn add_to_i_flags_past_fifteen_bits() {
    // LD I, FFF; LD V0, 1; ADD I, V0
    let mut chip8 = machine_with(&[0xAF, 0xFF, 0x60, 0x01, 0xF0, 0x1E]);
    for _ in 0..3 {
        assert_eq!(chip8.step(0), Ok(()));
    }
    assert_eq!(chip8.registers.get_i(), 0x1000);
    assert_eq!(chip8.registers.get_v(0xF), 0);
    chip8.registers.set_i(0x8000);
    chip8.registers.set_pc(0x204);
    assert_eq!(chip8.step(0), Ok(()));
    assert_eq!(chip8.registers.get_i(), 0x8001);
    assert_eq!(chip8.registers.get_v(0xF), 1);
}

#[test]
fn conditional_skips_and_indexed_jump() {
    // LD V0, 4; SE V0, 4 (skip); LD V1, 1 (skipped); SNE V0, 4 (no skip); JP V0, 300
    let rom = [0x60, 0x04, 0x30, 0x04, 0x61, 0x01, 0x40, 0x04, 0xB3, 0x00];
    let mut chip8 = machine_with(&rom);
    assert_eq!(chip8.step(0), Ok(()));
    assert_eq!(chip8.step(0), Ok(()));
    assert_eq!(chip8.registers.get_pc(), 0x206);
    assert_eq!(chip8.step(0), Ok(()));
    assert_eq!(chip8.registers.get_pc(), 0x208);
    assert_eq!(chip8.step(0), Ok(()));
    assert_eq!(chip8.registers.get_pc(), 0x304);
    assert_eq!(chip8.registers.get_v(1), 0);
}

#[test]
fn register_compare_skips() {
    // LD V0, 3; LD V1, 3; SE V0, V1 (skip); -; SNE V0, V1 (no skip)
    let rom = [0x60, 3, 0x61, 3, 0x50, 0x10, 0x00, 0x00, 0x90, 0x10];
    let mut chip8 = machine_with(&rom);
    for _ in 0..3 {
        assert_eq!(chip8.step(0), Ok(()));
    }
    assert_eq!(chip8.registers.get_pc(), 0x208);
    assert_eq!(chip8.step(0), Ok(()));
    assert_eq!(chip8.registers.get_pc(), 0x20A);
}

#[test]
fn random_byte_is_masked() {
    let mut chip8 = machine_with(&[0xC7, 0x0F]);
    assert_eq!(chip8.step(0xAB), Ok(()));
    assert_eq!(chip8.registers.get_v(7), 0x0B);
    chip8.registers.set_pc(0x200);
    assert_eq!(chip8.exec(), Ok(()));
    assert!(chip8.registers.get_v(7) <= 0x0F);
}

#[test]
fn timer_loads_and_reads() {
    // LD V1, 9; LD DT, V1; LD ST, V1; LD V2, DT
    let mut chip8 = machine_with(&[0x61, 9, 0xF1, 0x15, 0xF1, 0x18, 0xF2, 0x07]);
    for _ in 0..4 {
        assert_eq!(chip8.step(0), Ok(()));
    }
    assert_eq!(chip8.registers.get_dt(), 9);
    assert_eq!(chip8.registers.get_st(), 9);
    assert_eq!(chip8.registers.get_v(2), 9);
}

#[test]
fn unknown_opcode_only_moves_on() {
    let mut chip8 = machine_with(&[0x51, 0x23, 0xE1, 0x00]);
    assert_eq!(chip8.step(0), Ok(()));
    assert_eq!(chip8.step(0), Ok(()));
    assert_eq!(chip8.registers.get_pc(), 0x204);
}

#[test]
fn parse_splits_the_fields() {
    let ins = Instruction::parse(0xD123);
    assert_eq!(ins.nibbles, (0xD, 0x1, 0x2, 0x3));
    assert_eq!(ins.addr, 0x123);
    assert_eq!(ins.byte, 0x23);
    assert_eq!(ins.x, 1);
    assert_eq!(ins.y, 2);
    assert_eq!(ins.nibble, 3);
}

#[test]
fn emulator_frame_runs_ten_instructions_then_ticks() {
    let mut emu = Chip8Emulator::new();
    // Five ADD V0, 1; LD V1, 3; LD DT, V1; four more ADD V0, 1
    let mut rom = Vec::new();
    for _ in 0..5 {
        rom.extend_from_slice(&[0x70, 0x01]);
    }
    rom.extend_from_slice(&[0x61, 0x03, 0xF1, 0x15]);
    for _ in 0..4 {
        rom.extend_from_slice(&[0x70, 0x01]);
    }
    assert_eq!(emu.load_rom(&rom), Ok(rom.len()));
    assert_eq!(emu.tick(), Ok(()));
    assert_eq!(emu.chip8.registers.get_v(0), 8);
    assert_eq!(emu.chip8.registers.get_dt(), 2);
    assert_eq!(emu.chip8.registers.get_pc(), 0x200 + 20);
}

#[test]
fn emulator_frame_stops_at_a_fault() {
    let mut emu = Chip8Emulator::new();
    assert_eq!(emu.load_rom(&[0x70, 0x01, 0x00, 0xEE]), Ok(4));
    emu.chip8.registers.set_dt(5);
    assert_eq!(emu.tick(), Err(Fault::StackUnderflow));
    assert_eq!(emu.chip8.registers.get_pc(), 0x202);
    assert_eq!(emu.chip8.registers.get_dt(), 5);
}

#[test]
fn emulator_ignores_keys_off_the_keypad() {
    let mut emu = Chip8Emulator::new();
    emu.key_down(16);
    emu.key_down(15);
    assert!(emu.chip8.is_key_down(15));
    emu.key_up(15);
    assert!(!emu.chip8.is_key_down(15));
}

#[test]
fn emulator_display_buffer_is_row_major() {
    let mut emu = Chip8Emulator::new();
    emu.chip8.toggle_pixel(3, 2);
    let buffer = emu.get_display_buffer();
    assert_eq!(buffer.len(), 2048);
    assert_eq!(buffer[2 * 64 + 3], 1);
    assert_eq!(buffer.iter().map(|b| *b as usize).sum::<usize>(), 1);
    emu.reset();
    assert!(emu.get_display_buffer().iter().all(|b| *b == 0));
}

#[test]
fn oversized_rom_is_refused_by_the_emulator() {
    let mut emu = Chip8Emulator::new();
    assert!(emu.load_rom(&vec![1u8; MAX_ROM_SIZE + 1]).is_err());
}

#[test]
fn instruction_from_opcode_matches_parse() {
    let ins = Instruction::from(0x8AB4u16);
    assert_eq!(ins.nibbles, (0x8, 0xA, 0xB, 0x4));
    assert_eq!(ins.x, 0xA);
    assert_eq!(ins.y, 0xB);
    assert_eq!(ins.nibble, 4);
    assert_eq!(ins.byte, 0xB4);
    assert_eq!(ins.addr, 0xAB4);
}
