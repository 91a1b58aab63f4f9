use chip8emu::chip8::Chip8;
use chip8emu::chip8::fontset;
use chip8emu::model::Fault;
use chip8emu::model::LoadError;
use chip8emu::model::PIXEL_ON;

#[test]
fn initial_state_zeroed() {
    let c = Chip8::new();
    assert_eq!(c.pc, 0x200);
    assert_eq!(c.sp, 0);
    assert_eq!(c.index, 0);
    assert_eq!(c.delay_timer, 0);
    assert_eq!(c.sound_timer, 0);
    assert_eq!(c.opcode, 0);
    assert!(c.registers.iter().all(|&r| r == 0));
    assert!(c.stack.iter().all(|&s| s == 0));
    assert!(c.keypad.iter().all(|&k| k == 0));
    assert!(c.display.iter().all(|&p| p == 0));
    assert_eq!(c.registers.len(), 16);
    assert_eq!(c.memory.len(), 4096);
    assert_eq!(c.stack.len(), 16);
    assert_eq!(c.display.len(), 64 * 32);
}

#[test]
fn fontset_loaded_at_construction() {
    let c = Chip8::new();
    let font = fontset();
    assert_eq!(font.len(), 80);
    for i in 0..80 {
        assert_eq!(c.memory[0x50 + i], font[i]);
    }
    assert_eq!(c.memory[0x50], 0xF0);
    assert_eq!(c.memory[0x9F], 0x80);
    assert_eq!(c.memory[0x4F], 0);
    assert_eq!(c.memory[0xA0], 0);
}

#[test]
fn load_rom_copies_bytes() {
    let mut c = Chip8::new();
    let rom = vec![0xA2, 0xF0, 0x12, 0x00];
    assert!(c.load_rom(&rom).is_ok());
    assert_eq!(c.memory[0x200], 0xA2);
    assert_eq!(c.memory[0x201], 0xF0);
    assert_eq!(c.memory[0x202], 0x12);
    assert_eq!(c.memory[0x203], 0x00);
    assert_eq!(c.memory[0x204], 0);
}

#[test]
fn load_rom_rejects_oversized() {
    let mut c = Chip8::new();
    let rom = vec![0x55u8; 4096 - 0x200 + 1];
    assert_eq!(c.load_rom(&rom), Err(LoadError::TooLarge));
    assert_eq!(c.memory[0x200], 0);
}

#[test]
fn load_rom_accepts_largest_program() {
    let mut c = Chip8::new();
    let rom = vec![0x55u8; 4096 - 0x200];
    assert!(c.load_rom(&rom).is_ok());
    assert_eq!(c.memory[0x200], 0x55);
    assert_eq!(c.memory[4095], 0x55);
}

#[test]
fn cls_turns_every_cell_off() {
    let mut c = Chip8::new();
    c.display[0] = PIXEL_ON;
    c.display[1000] = PIXEL_ON;
    c.display[2047] = PIXEL_ON;
    c.opcode = 0x00E0;
    c.OP_00E0();
    assert!(c.display.iter().all(|&p| p == 0));
}

#[test]
fn draw_on_blank_sets_cells_and_clears_vf() {
    let mut c = Chip8::new();
    c.memory[0x300] = 0xFF;
    c.memory[0x301] = 0xFF;
    c.memory[0x302] = 0xFF;
    c.index = 0x300;
    c.registers[0] = 4;
    c.registers[1] = 5;
    c.registers[0xF] = 7;
    c.opcode = 0xD013;
    assert!(c.OP_DXYN().is_ok());
    assert_eq!(c.registers[0xF], 0);
    for row in 0..3usize {
        for col in 0..8usize {
            assert_eq!(c.display[(5 + row) * 64 + 4 + col], PIXEL_ON);
        }
    }
    assert_eq!(c.display[5 * 64 + 3], 0);
    assert_eq!(c.display[5 * 64 + 12], 0);
    assert_eq!(c.display[4 * 64 + 4], 0);
    assert_eq!(c.display[8 * 64 + 4], 0);
}

#[test]
fn draw_twice_turns_cells_back_off_and_sets_vf() {
    let mut c = Chip8::new();
    c.memory[0x300] = 0xFF;
    c.memory[0x301] = 0x81;
    c.index = 0x300;
    c.registers[0] = 10;
    c.registers[1] = 20;
    c.opcode = 0xD012;
    assert!(c.OP_DXYN().is_ok());
    assert_eq!(c.registers[0xF], 0);
    assert!(c.OP_DXYN().is_ok());
    assert_eq!(c.registers[0xF], 1);
    assert!(c.display.iter().all(|&p| p == 0));
}

#[test]
fn draw_wraps_at_display_edges() {
    let mut c = Chip8::new();
    c.memory[0x300] = 0xFF;
    c.memory[0x301] = 0xFF;
    c.index = 0x300;
    c.registers[2] = 60;
    c.registers[3] = 31;
    c.opcode = 0xD232;
    assert!(c.OP_DXYN().is_ok());
    assert_eq!(c.registers[0xF], 0);
    // Row 31 holds columns 60..63 and the wrapped columns 0..3; row 0 is
    // the wrapped second sprite row.
    for col in 0..8usize {
        assert_eq!(c.display[31 * 64 + (60 + col) % 64], PIXEL_ON);
        assert_eq!(c.display[(60 + col) % 64], PIXEL_ON);
    }
    assert_eq!(c.display[31 * 64 + 4], 0);
    assert_eq!(c.display[64 + 60], 0);
}

#[test]
fn draw_past_memory_end_faults() {
    let mut c = Chip8::new();
    c.index = 4095;
    c.opcode = 0xD012;
    assert_eq!(c.OP_DXYN(), Err(Fault::AddressOutOfRange));
    assert!(c.display.iter().all(|&p| p == 0));
}

#[test]
fn add_overflow_sets_carry_and_truncates() {
    let mut c = Chip8::new();
    c.registers[0] = 250;
    c.registers[1] = 10;
    c.opcode = 0x8014;
    c.OP_8XY4();
    assert_eq!(c.registers[0], 4);
    assert_eq!(c.registers[0xF], 1);
}

#[test]
fn add_without_overflow_clears_carry() {
    let mut c = Chip8::new();
    c.registers[2] = 3;
    c.registers[3] = 4;
    c.registers[0xF] = 1;
    c.opcode = 0x8234;
    c.OP_8XY4();
    assert_eq!(c.registers[2], 7);
    assert_eq!(c.registers[0xF], 0);
}

#[test]
fn bcd_writes_three_decimal_digits() {
    let mut c = Chip8::new();
    c.registers[0] = 156;
    c.index = 0x400;
    c.opcode = 0xF033;
    assert!(c.OP_FX33().is_ok());
    assert_eq!(c.memory[0x400], 1);
    assert_eq!(c.memory[0x401], 5);
    assert_eq!(c.memory[0x402], 6);
}

#[test]
fn bcd_of_small_value() {
    let mut c = Chip8::new();
    c.registers[7] = 9;
    c.index = 0x500;
    c.opcode = 0xF733;
    assert!(c.OP_FX33().is_ok());
    assert_eq!(c.memory[0x500], 0);
    assert_eq!(c.memory[0x501], 0);
    assert_eq!(c.memory[0x502], 9);
}

#[test]
fn bcd_past_memory_end_faults() {
    let mut c = Chip8::new();
    c.index = 4094;
    c.opcode = 0xF033;
    assert_eq!(c.OP_FX33(), Err(Fault::AddressOutOfRange));
}

#[test]
fn timers_decrement_once_per_cycle_and_stop_at_zero() {
    let mut c = Chip8::new();
    // Four harmless register loads.
    let rom = vec![0x60, 0x00, 0x60, 0x00, 0x60, 0x00, 0x60, 0x00];
    assert!(c.load_rom(&rom).is_ok());
    c.delay_timer = 3;
    c.sound_timer = 1;
    assert!(c.cycle().is_ok());
    assert_eq!(c.delay_timer, 2);
    assert_eq!(c.sound_timer, 0);
    assert!(c.cycle().is_ok());
    assert_eq!(c.delay_timer, 1);
    assert_eq!(c.sound_timer, 0);
    assert!(c.cycle().is_ok());
    assert_eq!(c.delay_timer, 0);
    assert!(c.cycle().is_ok());
    assert_eq!(c.delay_timer, 0);
    assert_eq!(c.sound_timer, 0);
}

#[test]
fn wait_key_blocks_then_records_lowest_pressed() {
    let mut c = Chip8::new();
    let rom = vec![0xF2, 0x0A];
    assert!(c.load_rom(&rom).is_ok());
    assert!(c.cycle().is_ok());
    assert_eq!(c.pc, 0x200);
    assert_eq!(c.registers[2], 0);
    assert!(c.cycle().is_ok());
    assert_eq!(c.pc, 0x200);
    c.key(7, true);
    c.key(3, true);
    assert!(c.cycle().is_ok());
    assert_eq!(c.pc, 0x202);
    assert_eq!(c.registers[2], 3);
}

#[test]
fn key_release_is_visible() {
    let mut c = Chip8::new();
    c.key(5, true);
    assert_eq!(c.keypad[5], 1);
    c.key(5, false);
    assert_eq!(c.keypad[5], 0);
}

#[test]
fn pc_advances_by_two_on_plain_instruction() {
    let mut c = Chip8::new();
    let rom = vec![0x6A, 0x42, 0xA1, 0x23];
    assert!(c.load_rom(&rom).is_ok());
    assert!(c.cycle().is_ok());
    assert_eq!(c.pc, 0x202);
    assert_eq!(c.registers[0xA], 0x42);
    assert!(c.cycle().is_ok());
    assert_eq!(c.pc, 0x204);
    assert_eq!(c.index, 0x123);
}

#[test]
fn skip_when_register_equals_immediate() {
    let mut c = Chip8::new();
    c.registers[3] = 0x42;
    c.opcode = 0x3342;
    c.OP_3XKK();
    assert_eq!(c.pc, 0x202);
    c.opcode = 0x3341;
    c.OP_3XKK();
    assert_eq!(c.pc, 0x202);
}

#[test]
fn skip_when_register_differs_from_immediate() {
    let mut c = Chip8::new();
    c.registers[3] = 0x42;
    c.opcode = 0x4342;
    c.OP_4XKK();
    assert_eq!(c.pc, 0x200);
    c.opcode = 0x4341;
    c.OP_4XKK();
    assert_eq!(c.pc, 0x202);
}

#[test]
fn skip_when_registers_equal_or_differ() {
    let mut c = Chip8::new();
    c.registers[1] = 9;
    c.registers[2] = 9;
    c.registers[3] = 7;
    c.opcode = 0x5120;
    c.OP_5XY0();
    assert_eq!(c.pc, 0x202);
    c.opcode = 0x5130;
    c.OP_5XY0();
    assert_eq!(c.pc, 0x202);
    c.opcode = 0x9130;
    c.OP_9XY0();
    assert_eq!(c.pc, 0x204);
    c.opcode = 0x9120;
    c.OP_9XY0();
    assert_eq!(c.pc, 0x204);
}

#[test]
fn register_copy_and_logic_ops() {
    let mut c = Chip8::new();
    c.registers[1] = 0b1100;
    c.registers[2] = 0b1010;
    c.opcode = 0x8120;
    c.OP_8XY0();
    assert_eq!(c.registers[1], 0b1010);
    c.registers[1] = 0b1100;
    c.OP_8XY1();
    assert_eq!(c.registers[1], 0b1110);
    c.registers[1] = 0b1100;
    c.OP_8XY2();
    assert_eq!(c.registers[1], 0b1000);
    c.registers[1] = 0b1100;
    c.OP_8XY3();
    assert_eq!(c.registers[1], 0b0110);
}

#[test]
fn subtract_sets_not_borrow_flag() {
    let mut c = Chip8::new();
    c.registers[0] = 10;
    c.registers[1] = 3;
    c.opcode = 0x8015;
    c.OP_8XY5();
    assert_eq!(c.registers[0], 7);
    assert_eq!(c.registers[0xF], 1);
    c.registers[0] = 3;
    c.registers[1] = 10;
    c.OP_8XY5();
    assert_eq!(c.registers[0], 249);
    assert_eq!(c.registers[0xF], 0);
}

#[test]
fn subtract_of_equal_operands_borrows_nothing() {
    let mut c = Chip8::new();
    c.registers[0] = 7;
    c.registers[1] = 7;
    c.opcode = 0x8015;
    c.OP_8XY5();
    assert_eq!(c.registers[0], 0);
    assert_eq!(c.registers[0xF], 1);
    c.registers[2] = 9;
    c.registers[3] = 9;
    c.opcode = 0x8237;
    c.OP_8XY7();
    assert_eq!(c.registers[2], 0);
    assert_eq!(c.registers[0xF], 1);
}

#[test]
fn flag_wins_when_vf_is_an_operand() {
    let mut c = Chip8::new();
    // VF as the addition destination: the carry flag overwrites the sum.
    c.registers[0xF] = 250;
    c.registers[1] = 10;
    c.opcode = 0x8F14;
    c.OP_8XY4();
    assert_eq!(c.registers[0xF], 1);
    c.registers[0xF] = 3;
    c.registers[1] = 4;
    c.OP_8XY4();
    assert_eq!(c.registers[0xF], 0);
    // VF as the subtraction destination: the not-borrow flag wins, and the
    // operand read is the pre-instruction value, not the flag.
    c.registers[0xF] = 10;
    c.registers[1] = 3;
    c.opcode = 0x8F15;
    c.OP_8XY5();
    assert_eq!(c.registers[0xF], 1);
    c.registers[0xF] = 3;
    c.registers[1] = 10;
    c.OP_8XY5();
    assert_eq!(c.registers[0xF], 0);
}

#[test]
fn reverse_subtract_sets_not_borrow_flag() {
    let mut c = Chip8::new();
    c.registers[0] = 3;
    c.registers[1] = 10;
    c.opcode = 0x8017;
    c.OP_8XY7();
    assert_eq!(c.registers[0], 7);
    assert_eq!(c.registers[0xF], 1);
    c.registers[0] = 10;
    c.registers[1] = 3;
    c.OP_8XY7();
    assert_eq!(c.registers[0], 249);
    assert_eq!(c.registers[0xF], 0);
}

#[test]
fn shifts_capture_the_shifted_out_bit() {
    let mut c = Chip8::new();
    c.registers[5] = 0b1011;
    c.opcode = 0x8506;
    c.OP_8XY6();
    assert_eq!(c.registers[5], 0b101);
    assert_eq!(c.registers[0xF], 1);
    c.registers[5] = 0x81;
    c.opcode = 0x850E;
    c.OP_8XYE();
    assert_eq!(c.registers[5], 0x02);
    assert_eq!(c.registers[0xF], 1);
    c.registers[5] = 0x40;
    c.OP_8XYE();
    assert_eq!(c.registers[5], 0x80);
    assert_eq!(c.registers[0xF], 0);
}

#[test]
fn add_immediate_wraps_without_flag() {
    let mut c = Chip8::new();
    c.registers[0] = 250;
    c.registers[0xF] = 0;
    c.opcode = 0x700A;
    c.OP_7XKK();
    assert_eq!(c.registers[0], 4);
    assert_eq!(c.registers[0xF], 0);
}

#[test]
fn jump_call_and_return() {
    let mut c = Chip8::new();
    c.opcode = 0x1234;
    c.OP_1NNN();
    assert_eq!(c.pc, 0x234);
    c.pc = 0x202;
    c.opcode = 0x2345;
    assert!(c.OP_2NNN().is_ok());
    assert_eq!(c.pc, 0x345);
    assert_eq!(c.sp, 1);
    assert_eq!(c.stack[0], 0x202);
    assert!(c.OP_00EE().is_ok());
    assert_eq!(c.pc, 0x202);
    assert_eq!(c.sp, 0);
}

#[test]
fn jump_with_offset_uses_v0() {
    let mut c = Chip8::new();
    c.registers[0] = 5;
    c.opcode = 0xB300;
    c.OP_BNNN();
    assert_eq!(c.pc, 0x305);
}

#[test]
fn call_beyond_sixteen_frames_faults() {
    let mut c = Chip8::new();
    // A program that calls itself forever.
    let rom = vec![0x22, 0x00];
    assert!(c.load_rom(&rom).is_ok());
    for _ in 0..16 {
        assert!(c.cycle().is_ok());
    }
    assert_eq!(c.sp, 16);
    let e = c.cycle().unwrap_err();
    assert_eq!(e.fault, Fault::StackOverflow);
    assert_eq!(e.pc, 0x200);
    assert_eq!(e.opcode, 0x2200);
}

#[test]
fn return_with_empty_stack_faults() {
    let mut c = Chip8::new();
    let rom = vec![0x00, 0xEE];
    assert!(c.load_rom(&rom).is_ok());
    let e = c.cycle().unwrap_err();
    assert_eq!(e.fault, Fault::StackUnderflow);
    assert_eq!(e.pc, 0x200);
    assert_eq!(e.opcode, 0x00EE);
}

#[test]
fn fetch_beyond_memory_faults() {
    let mut c = Chip8::new();
    c.pc = 4095;
    let e = c.cycle().unwrap_err();
    assert_eq!(e.fault, Fault::AddressOutOfRange);
    assert_eq!(e.pc, 4095);
    assert_eq!(e.opcode, 0);
    assert_eq!(c.pc, 4095);
}

#[test]
fn random_byte_is_masked() {
    let mut c = Chip8::new();
    c.registers[5] = 0xAA;
    c.opcode = 0xC500;
    c.OP_CXKK();
    assert_eq!(c.registers[5], 0);
    c.opcode = 0xC50F;
    c.OP_CXKK();
    assert!(c.registers[5] <= 0x0F);
}

#[test]
fn index_add_and_fault() {
    let mut c = Chip8::new();
    c.index = 0x123;
    c.registers[2] = 3;
    c.opcode = 0xF21E;
    assert!(c.OP_FX1E().is_ok());
    assert_eq!(c.index, 0x126);
    c.index = 0xFFF;
    c.registers[2] = 1;
    assert_eq!(c.OP_FX1E(), Err(Fault::AddressOutOfRange));
    assert_eq!(c.index, 0xFFF);
}

#[test]
fn glyph_address_for_digit() {
    let mut c = Chip8::new();
    c.registers[0] = 2;
    c.opcode = 0xF029;
    c.OP_FX29();
    assert_eq!(c.index, 0x50 + 5 * 2);
    let font = fontset();
    for i in 0..5usize {
        assert_eq!(c.memory[c.index as usize + i], font[10 + i]);
    }
}

#[test]
fn store_and_load_registers_roundtrip() {
    let mut c = Chip8::new();
    for i in 0..5u8 {
        c.registers[i as usize] = 10 + i;
    }
    c.index = 0x300;
    c.opcode = 0xF455;
    assert!(c.OP_FX55().is_ok());
    for i in 0..5usize {
        assert_eq!(c.memory[0x300 + i], 10 + i as u8);
    }
    assert_eq!(c.memory[0x305], 0);
    for i in 0..5usize {
        c.registers[i] = 0;
    }
    c.opcode = 0xF465;
    assert!(c.OP_FX65().is_ok());
    for i in 0..5usize {
        assert_eq!(c.registers[i], 10 + i as u8);
    }
    assert_eq!(c.registers[5], 0);
}

#[test]
fn bulk_store_past_memory_end_faults() {
    let mut c = Chip8::new();
    c.index = 4090;
    c.opcode = 0xFF55;
    assert_eq!(c.OP_FX55(), Err(Fault::AddressOutOfRange));
    c.opcode = 0xFF65;
    assert_eq!(c.OP_FX65(), Err(Fault::AddressOutOfRange));
}

#[test]
fn timer_set_and_read() {
    let mut c = Chip8::new();
    c.registers[4] = 77;
    c.opcode = 0xF415;
    c.OP_FX15();
    assert_eq!(c.delay_timer, 77);
    c.opcode = 0xF418;
    c.OP_FX18();
    assert_eq!(c.sound_timer, 77);
    c.opcode = 0xF607;
    c.OP_FX07();
    assert_eq!(c.registers[6], 77);
}

#[test]
fn key_skips_press_state() {
    let mut c = Chip8::new();
    c.registers[2] = 0xB;
    c.key(0xB, true);
    c.opcode = 0xE29E;
    assert!(c.OP_EX9E().is_ok());
    assert_eq!(c.pc, 0x202);
    c.opcode = 0xE2A1;
    assert!(c.OP_EXA1().is_ok());
    assert_eq!(c.pc, 0x202);
    c.key(0xB, false);
    assert!(c.OP_EXA1().is_ok());
    assert_eq!(c.pc, 0x204);
}

#[test]
fn full_cycle_draws_a_glyph() {
    let mut c = Chip8::new();
    // Point the index at the glyph for 0, then draw its 5 rows at (0, 0).
    let rom = vec![0x60, 0x00, 0xF0, 0x29, 0xD0, 0x05];
    assert!(c.load_rom(&rom).is_ok());
    assert!(c.cycle().is_ok());
    assert!(c.cycle().is_ok());
    assert_eq!(c.index, 0x50);
    assert!(c.cycle().is_ok());
    assert_eq!(c.pc, 0x206);
    assert_eq!(c.registers[0xF], 0);
    // The top row of the 0 glyph is 0xF0: four lit cells, then four off.
    for col in 0..4 {
        assert_eq!(c.display[col], PIXEL_ON);
    }
    for col in 4..8 {
        assert_eq!(c.display[col], 0);
    }
}

#[test]
fn full_cycle_masks_random_byte() {
    let mut c = Chip8::new();
    c.registers[3] = 0xAA;
    let rom = vec![0xC3, 0x00];
    assert!(c.load_rom(&rom).is_ok());
    assert!(c.cycle().is_ok());
    assert_eq!(c.pc, 0x202);
    assert_eq!(c.registers[3], 0);
}

#[test]
fn key_skip_with_bad_register_value_faults() {
    let mut c = Chip8::new();
    c.registers[2] = 16;
    c.opcode = 0xE29E;
    assert_eq!(c.OP_EX9E(), Err(Fault::AddressOutOfRange));
    c.opcode = 0xE2A1;
    assert_eq!(c.OP_EXA1(), Err(Fault::AddressOutOfRange));
    assert_eq!(c.pc, 0x200);
}
