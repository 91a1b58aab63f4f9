use chip8emu::chip8::Chip8;
use chip8emu::decode::Instr;
use chip8emu::decode::decode;

#[test]
fn decode_selects_each_family() {
    assert_eq!(decode(0x00E0), Instr::Op00E0);
    assert_eq!(decode(0x00EE), Instr::Op00EE);
    assert_eq!(decode(0x1234), Instr::Op1NNN);
    assert_eq!(decode(0x2345), Instr::Op2NNN);
    assert_eq!(decode(0x3ABC), Instr::Op3XKK);
    assert_eq!(decode(0x4ABC), Instr::Op4XKK);
    assert_eq!(decode(0x5AB0), Instr::Op5XY0);
    assert_eq!(decode(0x6ABC), Instr::Op6XKK);
    assert_eq!(decode(0x7ABC), Instr::Op7XKK);
    assert_eq!(decode(0x8AB0), Instr::Op8XY0);
    assert_eq!(decode(0x8AB1), Instr::Op8XY1);
    assert_eq!(decode(0x8AB2), Instr::Op8XY2);
    assert_eq!(decode(0x8AB3), Instr::Op8XY3);
    assert_eq!(decode(0x8AB4), Instr::Op8XY4);
    assert_eq!(decode(0x8AB5), Instr::Op8XY5);
    assert_eq!(decode(0x8AB6), Instr::Op8XY6);
    assert_eq!(decode(0x8AB7), Instr::Op8XY7);
    assert_eq!(decode(0x8ABE), Instr::Op8XYE);
    assert_eq!(decode(0x9AB0), Instr::Op9XY0);
    assert_eq!(decode(0xA123), Instr::OpANNN);
    assert_eq!(decode(0xB123), Instr::OpBNNN);
    assert_eq!(decode(0xC1FF), Instr::OpCXKK);
    assert_eq!(decode(0xD125), Instr::OpDXYN);
    assert_eq!(decode(0xE19E), Instr::OpEX9E);
    assert_eq!(decode(0xE1A1), Instr::OpEXA1);
    assert_eq!(decode(0xF107), Instr::OpFX07);
    assert_eq!(decode(0xF10A), Instr::OpFX0A);
    assert_eq!(decode(0xF115), Instr::OpFX15);
    assert_eq!(decode(0xF118), Instr::OpFX18);
    assert_eq!(decode(0xF11E), Instr::OpFX1E);
    assert_eq!(decode(0xF129), Instr::OpFX29);
    assert_eq!(decode(0xF133), Instr::OpFX33);
    assert_eq!(decode(0xF155), Instr::OpFX55);
    assert_eq!(decode(0xF165), Instr::OpFX65);
}

#[test]
fn unassigned_words_decode_to_nop() {
    assert_eq!(decode(0x0005), Instr::Nop);
    assert_eq!(decode(0x8AB8), Instr::Nop);
    assert_eq!(decode(0x8ABF), Instr::Nop);
    assert_eq!(decode(0xE100), Instr::Nop);
    assert_eq!(decode(0xF100), Instr::Nop);
    assert_eq!(decode(0xF0FF), Instr::Nop);
    assert_eq!(decode(0xF166), Instr::Nop);
}

#[test]
fn secondary_key_ignores_middle_nibbles() {
    // The second-level lookup keys on the bottom nibble alone.
    assert_eq!(decode(0x0120), Instr::Op00E0);
    assert_eq!(decode(0x034E), Instr::Op00EE);
    assert_eq!(decode(0xEF9E), Instr::OpEX9E);
}

#[test]
fn unassigned_word_executes_as_noop() {
    let mut c = Chip8::new();
    // 8XY8 has no assigned handler; the step must still complete, advance
    // the counter by 2, and leave everything else alone.
    let rom = vec![0x80, 0x08, 0xF0, 0xFF];
    assert!(c.load_rom(&rom).is_ok());
    assert!(c.cycle().is_ok());
    assert_eq!(c.pc, 0x202);
    assert!(c.registers.iter().all(|&r| r == 0));
    assert_eq!(c.sp, 0);
    assert_eq!(c.index, 0);
    // FX's unassigned low byte likewise.
    assert!(c.cycle().is_ok());
    assert_eq!(c.pc, 0x204);
    assert!(c.registers.iter().all(|&r| r == 0));
}
