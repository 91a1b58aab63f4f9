//! Mathematical model of the machine.
//!
//! `MachineState` is the ghost view of the interpreter's mutable state; every
//! instruction handler is specified as a pure transition on it, and a whole
//! fetch-decode-execute-tick step is `spec_cycle`. Faults (stack overflow and
//! underflow, out-of-range memory or key-pad accesses, an unfetchable program
//! counter) are modelled explicitly: a faulting transition returns the fault
//! instead of mutating state.

use vstd::prelude::*;

use crate::decode::Instr;
use crate::decode::spec_decode;

verus! {

pub const VIDEO_WIDTH: usize = 64;

pub const VIDEO_HEIGHT: usize = 32;

pub const DISPLAY_CELLS: usize = 2048;

pub const MEMORY_SIZE: usize = 4096;

pub const START_ADDRESS: usize = 0x200;

pub const FONTSET_SIZE: usize = 80;

pub const FONTSET_START_ADDRESS: usize = 0x50;

pub const STACK_DEPTH: usize = 16;

pub const NUM_REGISTERS: usize = 16;

pub const NUM_KEYS: usize = 16;

/// The value of a lit display cell; an off cell holds 0.
pub const PIXEL_ON: u32 = 0xFFFF_FFFF;

/// An error local to one instruction; it halts the machine instead of
/// corrupting adjacent state.
#[derive(Clone, Copy, Debug, PartialEq, Eq, Structural)]
pub enum Fault {
    /// A call was made with all 16 stack slots already in use.
    StackOverflow,
    /// A return was executed with an empty stack.
    StackUnderflow,
    /// A computed memory, key-pad, or index-register value would leave its
    /// valid range.
    AddressOutOfRange,
}

/// A fault together with the program counter and instruction word that
/// raised it, as surfaced to the host by `Chip8::cycle`. For a fault raised
/// before a word could be fetched, `opcode` is 0.
#[derive(Clone, Copy, Debug, PartialEq, Eq, Structural)]
pub struct StepError {
    pub pc: u16,
    pub opcode: u16,
    pub fault: Fault,
}

/// The ghost view of the machine: plain sequences and integers.
#[verifier::ext_equal]
pub ghost struct MachineState {
    pub registers: Seq<u8>,
    pub memory: Seq<u8>,
    pub index: u16,
    pub pc: u16,
    pub stack: Seq<u16>,
    pub sp: u8,
    pub delay_timer: u8,
    pub sound_timer: u8,
    pub keypad: Seq<u8>,
    pub display: Seq<u32>,
    pub opcode: u16,
}

impl MachineState {
    /// The state's invariant: fixed sizes, a stack pointer within its 16
    /// slots, a 12-bit index register, binary display cells, and binary
    /// key-pad flags.
    pub open spec fn wf(self) -> bool {
        &&& self.registers.len() == NUM_REGISTERS
        &&& self.memory.len() == MEMORY_SIZE
        &&& self.stack.len() == STACK_DEPTH
        &&& self.keypad.len() == NUM_KEYS
        &&& self.display.len() == DISPLAY_CELLS
        &&& self.sp <= STACK_DEPTH
        &&& self.index < MEMORY_SIZE
        &&& forall|i: int|
            0 <= i < DISPLAY_CELLS ==> (self.display[i] == 0 || self.display[i] == PIXEL_ON)
        &&& forall|i: int| 0 <= i < NUM_KEYS ==> (self.keypad[i] == 0 || self.keypad[i] == 1)
    }
}

/// Register selector X: the second nibble of the instruction word.
pub open spec fn op_x(w: u16) -> int {
    ((w >> 8) & 0xF) as int
}

/// Register selector Y: the third nibble of the instruction word.
pub open spec fn op_y(w: u16) -> int {
    ((w >> 4) & 0xF) as int
}

/// The low nibble of the instruction word: a sprite height.
pub open spec fn op_n(w: u16) -> int {
    (w & 0xF) as int
}

/// The low byte of the instruction word: an immediate.
pub open spec fn op_kk(w: u16) -> u8 {
    (w & 0xFF) as u8
}

/// The low 12 bits of the instruction word: an address.
pub open spec fn op_nnn(w: u16) -> u16 {
    w & 0xFFF
}

/// Bounds of the operand fields of an instruction word.
pub proof fn lemma_op_fields(w: u16)
    ensures
        0 <= op_x(w) < 16,
        0 <= op_y(w) < 16,
        0 <= op_n(w) < 16,
        op_kk(w) == (w & 0xFF),
        op_nnn(w) < 4096,
{
    assert(((w >> 8) & 0xF) < 16 && ((w >> 4) & 0xF) < 16 && (w & 0xF) < 16 && (w & 0xFF) < 256
        && (w & 0xFFF) < 4096) by (bit_vector);
}

/// The state with register `i` replaced by `v`.
pub open spec fn set_reg(s: MachineState, i: int, v: u8) -> MachineState {
    MachineState { registers: s.registers.update(i, v), ..s }
}

/// Clear the display: every cell off.
pub open spec fn spec_op_00e0(s: MachineState) -> MachineState {
    MachineState { display: Seq::new(DISPLAY_CELLS as nat, |i: int| 0u32), ..s }
}

/// Return from a subroutine: pop the stack into the program counter.
pub open spec fn spec_op_00ee(s: MachineState) -> Result<MachineState, Fault> {
    if s.sp == 0 {
        Err(Fault::StackUnderflow)
    } else {
        Ok(MachineState { sp: (s.sp - 1) as u8, pc: s.stack[s.sp - 1], ..s })
    }
}

/// Jump to address NNN.
pub open spec fn spec_op_1nnn(s: MachineState) -> MachineState {
    MachineState { pc: op_nnn(s.opcode), ..s }
}

/// Call the subroutine at NNN: push the return address and jump.
pub open spec fn spec_op_2nnn(s: MachineState) -> Result<MachineState, Fault> {
    if s.sp == STACK_DEPTH {
        Err(Fault::StackOverflow)
    } else {
        Ok(
            MachineState {
                stack: s.stack.update(s.sp as int, s.pc),
                sp: (s.sp + 1) as u8,
                pc: op_nnn(s.opcode),
                ..s
            },
        )
    }
}

/// Skip the next instruction if VX equals the immediate KK.
pub open spec fn spec_op_3xkk(s: MachineState) -> MachineState {
    if s.registers[op_x(s.opcode)] == op_kk(s.opcode) {
        MachineState { pc: (s.pc + 2) as u16, ..s }
    } else {
        s
    }
}

/// Skip the next instruction if VX differs from the immediate KK.
pub open spec fn spec_op_4xkk(s: MachineState) -> MachineState {
    if s.registers[op_x(s.opcode)] != op_kk(s.opcode) {
        MachineState { pc: (s.pc + 2) as u16, ..s }
    } else {
        s
    }
}

/// Skip the next instruction if VX equals VY.
pub open spec fn spec_op_5xy0(s: MachineState) -> MachineState {
    if s.registers[op_x(s.opcode)] == s.registers[op_y(s.opcode)] {
        MachineState { pc: (s.pc + 2) as u16, ..s }
    } else {
        s
    }
}

/// Load the immediate KK into VX.
pub open spec fn spec_op_6xkk(s: MachineState) -> MachineState {
    set_reg(s, op_x(s.opcode), op_kk(s.opcode))
}

/// Add the immediate KK to VX, wrapping modulo 256, without touching VF.
pub open spec fn spec_op_7xkk(s: MachineState) -> MachineState {
    let sum = s.registers[op_x(s.opcode)] + op_kk(s.opcode);
    set_reg(s, op_x(s.opcode), (if sum > 255 { sum - 256 } else { sum }) as u8)
}

/// Copy VY into VX.
pub open spec fn spec_op_8xy0(s: MachineState) -> MachineState {
    set_reg(s, op_x(s.opcode), s.registers[op_y(s.opcode)])
}

/// Bitwise OR of VX and VY into VX.
pub open spec fn spec_op_8xy1(s: MachineState) -> MachineState {
    set_reg(s, op_x(s.opcode), s.registers[op_x(s.opcode)] | s.registers[op_y(s.opcode)])
}

/// Bitwise AND of VX and VY into VX.
pub open spec fn spec_op_8xy2(s: MachineState) -> MachineState {
    set_reg(s, op_x(s.opcode), s.registers[op_x(s.opcode)] & s.registers[op_y(s.opcode)])
}

/// Bitwise XOR of VX and VY into VX.
pub open spec fn spec_op_8xy3(s: MachineState) -> MachineState {
    set_reg(s, op_x(s.opcode), s.registers[op_x(s.opcode)] ^ s.registers[op_y(s.opcode)])
}

/// Add VY to VX; VX becomes the truncated sum and VF the carry. Both
/// operands are read from the pre-instruction registers, and the flag is
/// written last: it overwrites VF even when VF is itself an operand or the
/// destination.
pub open spec fn spec_op_8xy4(s: MachineState) -> MachineState {
    let sum = s.registers[op_x(s.opcode)] + s.registers[op_y(s.opcode)];
    let stored = set_reg(s, op_x(s.opcode), (if sum > 255 { sum - 256 } else { sum }) as u8);
    set_reg(stored, 15, if sum > 255 { 1u8 } else { 0u8 })
}

/// Subtract VY from VX, wrapping; VF becomes the not-borrow flag: 1 when
/// VX >= VY, since subtracting an equal value borrows nothing. Both
/// operands are read from the pre-instruction registers, and the flag is
/// written last: it overwrites VF even when VF is itself an operand or the
/// destination.
pub open spec fn spec_op_8xy5(s: MachineState) -> MachineState {
    let diff = s.registers[op_x(s.opcode)] - s.registers[op_y(s.opcode)];
    let stored = set_reg(s, op_x(s.opcode), (if diff < 0 { diff + 256 } else { diff }) as u8);
    set_reg(stored, 15, if diff >= 0 { 1u8 } else { 0u8 })
}

/// Shift VX right by one; VF first receives the shifted-out low bit.
pub open spec fn spec_op_8xy6(s: MachineState) -> MachineState {
    let flag: u8 = s.registers[op_x(s.opcode)] & 1;
    let f = set_reg(s, 15, flag);
    set_reg(f, op_x(s.opcode), f.registers[op_x(s.opcode)] >> 1)
}

/// Subtract VX from VY into VX, wrapping; VF becomes the not-borrow flag:
/// 1 when VY >= VX. Both operands are read from the pre-instruction
/// registers, and the flag is written last: it overwrites VF even when VF
/// is itself an operand or the destination.
pub open spec fn spec_op_8xy7(s: MachineState) -> MachineState {
    let diff = s.registers[op_y(s.opcode)] - s.registers[op_x(s.opcode)];
    let stored = set_reg(s, op_x(s.opcode), (if diff < 0 { diff + 256 } else { diff }) as u8);
    set_reg(stored, 15, if diff >= 0 { 1u8 } else { 0u8 })
}

/// Shift VX left by one; VF first receives the shifted-out high bit.
pub open spec fn spec_op_8xye(s: MachineState) -> MachineState {
    let flag: u8 = (s.registers[op_x(s.opcode)] & 0x80) >> 7;
    let f = set_reg(s, 15, flag);
    set_reg(f, op_x(s.opcode), f.registers[op_x(s.opcode)] << 1)
}

/// Skip the next instruction if VX differs from VY.
pub open spec fn spec_op_9xy0(s: MachineState) -> MachineState {
    if s.registers[op_x(s.opcode)] != s.registers[op_y(s.opcode)] {
        MachineState { pc: (s.pc + 2) as u16, ..s }
    } else {
        s
    }
}

/// Load the address NNN into the index register.
pub open spec fn spec_op_annn(s: MachineState) -> MachineState {
    MachineState { index: op_nnn(s.opcode), ..s }
}

/// Jump to NNN plus V0.
pub open spec fn spec_op_bnnn(s: MachineState) -> MachineState {
    MachineState { pc: (op_nnn(s.opcode) + s.registers[0]) as u16, ..s }
}

/// Load a random byte masked by KK into VX; `b` is the byte the generator
/// produced.
pub open spec fn spec_op_cxkk(s: MachineState, b: u8) -> MachineState {
    set_reg(s, op_x(s.opcode), b & op_kk(s.opcode))
}

/// Skip the next instruction if the key indexed by VX is pressed; VX must
/// name one of the 16 keys.
pub open spec fn spec_op_ex9e(s: MachineState) -> Result<MachineState, Fault> {
    let key = s.registers[op_x(s.opcode)];
    if key >= 16 {
        Err(Fault::AddressOutOfRange)
    } else if s.keypad[key as int] != 0 {
        Ok(MachineState { pc: (s.pc + 2) as u16, ..s })
    } else {
        Ok(s)
    }
}

/// Skip the next instruction if the key indexed by VX is not pressed; VX
/// must name one of the 16 keys.
pub open spec fn spec_op_exa1(s: MachineState) -> Result<MachineState, Fault> {
    let key = s.registers[op_x(s.opcode)];
    if key >= 16 {
        Err(Fault::AddressOutOfRange)
    } else if s.keypad[key as int] == 0 {
        Ok(MachineState { pc: (s.pc + 2) as u16, ..s })
    } else {
        Ok(s)
    }
}

/// Copy the delay timer into VX.
pub open spec fn spec_op_fx07(s: MachineState) -> MachineState {
    set_reg(s, op_x(s.opcode), s.delay_timer)
}

/// The lowest pressed key-pad index at or above `i`, or 16 when none of the
/// keys from `i` up is pressed.
pub open spec fn first_pressed_from(keypad: Seq<u8>, i: int) -> int
    decreases 16 - i,
{
    if i < 0 || i >= 16 {
        16
    } else if keypad[i] != 0 {
        i
    } else {
        first_pressed_from(keypad, i + 1)
    }
}

/// What `first_pressed_from` returns: 16 exactly when no key from `i` up is
/// pressed, and otherwise the lowest pressed index, whose key is pressed.
pub proof fn lemma_first_pressed(keypad: Seq<u8>, i: int)
    requires
        0 <= i <= 16,
    ensures
        i <= first_pressed_from(keypad, i) <= 16,
        first_pressed_from(keypad, i) == 16 ==> (forall|k: int|
            i <= k < 16 ==> keypad[k] == 0),
        first_pressed_from(keypad, i) < 16 ==> {
            let f = first_pressed_from(keypad, i);
            &&& i <= f < 16
            &&& keypad[f] != 0
            &&& forall|k: int| i <= k < f ==> keypad[k] == 0
        },
    decreases 16 - i,
{
    if i < 16 && keypad[i] == 0 {
        lemma_first_pressed(keypad, i + 1);
    }
}

/// Wait for a key: if any key is pressed, record the lowest pressed index
/// into VX; otherwise step the program counter back so the same instruction
/// is fetched again next cycle.
pub open spec fn spec_op_fx0a(s: MachineState) -> MachineState {
    let first = first_pressed_from(s.keypad, 0);
    if first < 16 {
        set_reg(s, op_x(s.opcode), first as u8)
    } else {
        MachineState { pc: (s.pc - 2) as u16, ..s }
    }
}

/// Set the delay timer from VX.
pub open spec fn spec_op_fx15(s: MachineState) -> MachineState {
    MachineState { delay_timer: s.registers[op_x(s.opcode)], ..s }
}

/// Set the sound timer from VX.
pub open spec fn spec_op_fx18(s: MachineState) -> MachineState {
    MachineState { sound_timer: s.registers[op_x(s.opcode)], ..s }
}

/// Add VX to the index register; the result must stay a 12-bit address.
pub open spec fn spec_op_fx1e(s: MachineState) -> Result<MachineState, Fault> {
    let sum = s.index + s.registers[op_x(s.opcode)];
    if sum >= MEMORY_SIZE {
        Err(Fault::AddressOutOfRange)
    } else {
        Ok(MachineState { index: sum as u16, ..s })
    }
}

/// Point the index register at the built-in glyph for the hex digit in VX.
pub open spec fn spec_op_fx29(s: MachineState) -> MachineState {
    MachineState {
        index: (FONTSET_START_ADDRESS + 5 * s.registers[op_x(s.opcode)]) as u16,
        ..s
    }
}

/// Store the three decimal digits of VX at the index address: hundreds
/// first, ones last.
pub open spec fn spec_op_fx33(s: MachineState) -> Result<MachineState, Fault> {
    if s.index + 2 >= MEMORY_SIZE {
        Err(Fault::AddressOutOfRange)
    } else {
        let v = s.registers[op_x(s.opcode)];
        Ok(
            MachineState {
                memory: s.memory.update(s.index + 2, v % 10).update(
                    s.index + 1,
                    (v / 10) % 10,
                ).update(s.index as int, v / 100),
                ..s
            },
        )
    }
}

/// Bulk-store registers 0 through X into memory at the index address.
pub open spec fn spec_op_fx55(s: MachineState) -> Result<MachineState, Fault> {
    let x = op_x(s.opcode);
    if s.index + x >= MEMORY_SIZE {
        Err(Fault::AddressOutOfRange)
    } else {
        Ok(
            MachineState {
                memory: Seq::new(
                    MEMORY_SIZE as nat,
                    |a: int|
                        if s.index <= a <= s.index + x {
                            s.registers[a - s.index]
                        } else {
                            s.memory[a]
                        },
                ),
                ..s
            },
        )
    }
}

/// Bulk-load registers 0 through X from memory at the index address.
pub open spec fn spec_op_fx65(s: MachineState) -> Result<MachineState, Fault> {
    let x = op_x(s.opcode);
    if s.index + x >= MEMORY_SIZE {
        Err(Fault::AddressOutOfRange)
    } else {
        Ok(
            MachineState {
                registers: Seq::new(
                    NUM_REGISTERS as nat,
                    |i: int|
                        if i <= x {
                            s.memory[s.index + i]
                        } else {
                            s.registers[i]
                        },
                ),
                ..s
            },
        )
    }
}

/// An error that prevents a session from starting.
#[derive(Clone, Copy, Debug, PartialEq, Eq, Structural)]
pub enum LoadError {
    /// The program is longer than the memory left above the load address.
    TooLarge,
}

/// The built-in glyph set: 16 hex-digit sprites of 5 bytes each.
pub open spec fn fontset_seq() -> Seq<u8> {
    seq![
        0xF0u8, 0x90, 0x90, 0x90, 0xF0,
        0x20, 0x60, 0x20, 0x20, 0x70,
        0xF0, 0x10, 0xF0, 0x80, 0xF0,
        0xF0, 0x10, 0xF0, 0x10, 0xF0,
        0x90, 0x90, 0xF0, 0x10, 0x10,
        0xF0, 0x80, 0xF0, 0x10, 0xF0,
        0xF0, 0x80, 0xF0, 0x90, 0xF0,
        0xF0, 0x10, 0x20, 0x40, 0x40,
        0xF0, 0x90, 0xF0, 0x90, 0xF0,
        0xF0, 0x90, 0xF0, 0x10, 0xF0,
        0xF0, 0x90, 0xF0, 0x90, 0x90,
        0xE0, 0x90, 0xE0, 0x90, 0xE0,
        0xF0, 0x80, 0x80, 0x80, 0xF0,
        0xE0, 0x90, 0x90, 0x90, 0xE0,
        0xF0, 0x80, 0xF0, 0x80, 0xF0,
        0xF0, 0x80, 0xF0, 0x80, 0x80,
    ]
}

/// The state a machine is constructed in: everything zeroed, the glyph set
/// copied into memory, and the program counter at the load address.
pub open spec fn spec_initial_state() -> MachineState {
    MachineState {
        registers: Seq::new(NUM_REGISTERS as nat, |i: int| 0u8),
        memory: Seq::new(
            MEMORY_SIZE as nat,
            |a: int|
                if FONTSET_START_ADDRESS <= a < FONTSET_START_ADDRESS + FONTSET_SIZE {
                    fontset_seq()[a - FONTSET_START_ADDRESS]
                } else {
                    0u8
                },
        ),
        index: 0u16,
        pc: START_ADDRESS as u16,
        stack: Seq::new(STACK_DEPTH as nat, |i: int| 0u16),
        sp: 0u8,
        delay_timer: 0u8,
        sound_timer: 0u8,
        keypad: Seq::new(NUM_KEYS as nat, |i: int| 0u8),
        display: Seq::new(DISPLAY_CELLS as nat, |i: int| 0u32),
        opcode: 0u16,
    }
}

/// Copy a program verbatim into memory at the load address, leaving the
/// rest of memory untouched.
pub open spec fn spec_load(s: MachineState, rom: Seq<u8>) -> MachineState {
    MachineState {
        memory: Seq::new(
            MEMORY_SIZE as nat,
            |a: int|
                if START_ADDRESS <= a < START_ADDRESS + rom.len() {
                    rom[a - START_ADDRESS]
                } else {
                    s.memory[a]
                },
        ),
        ..s
    }
}

/// Record one key as pressed or released.
pub open spec fn spec_key(s: MachineState, key: u8, state: bool) -> MachineState {
    MachineState {
        keypad: s.keypad.update(key as int, if state { 1u8 } else { 0u8 }),
        ..s
    }
}

/// An off cell becomes lit and a lit cell becomes off.
pub open spec fn flip_pixel(p: u32) -> u32 {
    if p == PIXEL_ON {
        0u32
    } else {
        PIXEL_ON
    }
}

/// Horizontal wraparound for a column position in [0, 128).
pub open spec fn wrap_x(a: int) -> int {
    if a < VIDEO_WIDTH {
        a
    } else {
        a - VIDEO_WIDTH
    }
}

/// Vertical wraparound for a row position in [0, 64).
pub open spec fn wrap_y(a: int) -> int {
    if a < VIDEO_HEIGHT {
        a
    } else {
        a - VIDEO_HEIGHT
    }
}

/// The draw origin column: VX modulo the display width.
pub open spec fn draw_x(s: MachineState) -> int {
    s.registers[op_x(s.opcode)] as int % VIDEO_WIDTH as int
}

/// The draw origin row: VY modulo the display height.
pub open spec fn draw_y(s: MachineState) -> int {
    s.registers[op_y(s.opcode)] as int % VIDEO_HEIGHT as int
}

/// Whether bit `c` (from the high end) of sprite row `r` is set.
pub open spec fn sprite_bit(s: MachineState, r: int, c: int) -> bool {
    s.memory[s.index + r] & (0x80u8 >> (c as u8)) != 0
}

/// The display cell that sprite bit (`r`, `c`) lands on, drawing at origin
/// (`x0`, `y0`) with wraparound.
pub open spec fn target_pix(x0: int, y0: int, r: int, c: int) -> int {
    wrap_y(y0 + r) * VIDEO_WIDTH as int + wrap_x(x0 + c)
}

/// Whether some set sprite bit, among rows below `row` and the bits of row
/// `row` below `col`, lands on display cell `p`.
pub open spec fn covered_upto(
    s: MachineState,
    x0: int,
    y0: int,
    row: int,
    col: int,
    p: int,
) -> bool {
    exists|r: int, c: int|
        0 <= r && 0 <= c < 8 && (r < row || (r == row && c < col)) && #[trigger] sprite_bit(s, r, c)
            && target_pix(x0, y0, r, c) == p
}

/// Whether some set sprite bit of the first `h` rows lands on cell `p`.
pub open spec fn covered(s: MachineState, x0: int, y0: int, h: int, p: int) -> bool {
    covered_upto(s, x0, y0, h, 0, p)
}

/// Whether some set sprite bit, among rows below `row` and the bits of row
/// `row` below `col`, lands on a cell that is already lit in `s`.
pub open spec fn collision_upto(s: MachineState, x0: int, y0: int, row: int, col: int) -> bool {
    exists|r: int, c: int|
        0 <= r && 0 <= c < 8 && (r < row || (r == row && c < col)) && #[trigger] sprite_bit(s, r, c)
            && s.display[target_pix(x0, y0, r, c)] == PIXEL_ON
}

/// Whether drawing the first `h` sprite rows turns some lit cell off.
pub open spec fn collision(s: MachineState, x0: int, y0: int, h: int) -> bool {
    collision_upto(s, x0, y0, h, 0)
}

/// Draw the N-row sprite at the index address at origin (VX mod 64, VY mod
/// 32): each set bit toggles its cell, and VF reports whether any lit cell
/// was turned off. All N sprite rows must lie in memory.
pub open spec fn spec_op_dxyn(s: MachineState) -> Result<MachineState, Fault> {
    let h = op_n(s.opcode);
    if s.index + h > MEMORY_SIZE {
        Err(Fault::AddressOutOfRange)
    } else {
        let x0 = draw_x(s);
        let y0 = draw_y(s);
        Ok(
            MachineState {
                registers: s.registers.update(
                    15,
                    if collision(s, x0, y0, h) {
                        1u8
                    } else {
                        0u8
                    },
                ),
                display: Seq::new(
                    DISPLAY_CELLS as nat,
                    |p: int|
                        if covered(s, x0, y0, h, p) {
                            flip_pixel(s.display[p])
                        } else {
                            s.display[p]
                        },
                ),
                ..s
            },
        )
    }
}

/// Each sprite bit lands on its own display cell: with the origin on the
/// display and at most 16 rows, no two bits of one draw wrap onto the same
/// cell.
pub proof fn lemma_target_pix_inj(x0: int, y0: int, r1: int, c1: int, r2: int, c2: int)
    requires
        0 <= x0 < 64,
        0 <= y0 < 32,
        0 <= r1 < 16,
        0 <= c1 < 8,
        0 <= r2 < 16,
        0 <= c2 < 8,
        target_pix(x0, y0, r1, c1) == target_pix(x0, y0, r2, c2),
    ensures
        r1 == r2,
        c1 == c2,
{
    assert(0 <= wrap_x(x0 + c1) < 64);
    assert(0 <= wrap_x(x0 + c2) < 64);
    assert(wrap_y(y0 + r1) == wrap_y(y0 + r2) && wrap_x(x0 + c1) == wrap_x(x0 + c2));
}

/// A bit that is not set adds nothing: advancing the draw past it changes
/// neither coverage nor collision.
pub proof fn lemma_upto_step_unset(s: MachineState, x0: int, y0: int, row: int, col: int)
    requires
        0 <= row,
        0 <= col < 8,
        !sprite_bit(s, row, col),
    ensures
        forall|p: int|
            covered_upto(s, x0, y0, row, col + 1, p) == covered_upto(s, x0, y0, row, col, p),
        collision_upto(s, x0, y0, row, col + 1) == collision_upto(s, x0, y0, row, col),
{
    assert forall|p: int|
        covered_upto(s, x0, y0, row, col + 1, p) == covered_upto(s, x0, y0, row, col, p) by {
        if covered_upto(s, x0, y0, row, col + 1, p) {
            let (r, c) = choose|r: int, c: int|
                0 <= r && 0 <= c < 8 && (r < row || (r == row && c < col + 1))
                    && #[trigger] sprite_bit(s, r, c) && target_pix(x0, y0, r, c) == p;
            assert(!(r == row && c == col));
            assert(covered_upto(s, x0, y0, row, col, p));
        }
        if covered_upto(s, x0, y0, row, col, p) {
            let (r, c) = choose|r: int, c: int|
                0 <= r && 0 <= c < 8 && (r < row || (r == row && c < col))
                    && #[trigger] sprite_bit(s, r, c) && target_pix(x0, y0, r, c) == p;
            assert(covered_upto(s, x0, y0, row, col + 1, p));
        }
    }
    if collision_upto(s, x0, y0, row, col + 1) {
        let (r, c) = choose|r: int, c: int|
            0 <= r && 0 <= c < 8 && (r < row || (r == row && c < col + 1)) && #[trigger] sprite_bit(
                s,
                r,
                c,
            ) && s.display[target_pix(x0, y0, r, c)] == PIXEL_ON;
        assert(!(r == row && c == col));
        assert(collision_upto(s, x0, y0, row, col));
    }
    if collision_upto(s, x0, y0, row, col) {
        let (r, c) = choose|r: int, c: int|
            0 <= r && 0 <= c < 8 && (r < row || (r == row && c < col)) && #[trigger] sprite_bit(
                s,
                r,
                c,
            ) && s.display[target_pix(x0, y0, r, c)] == PIXEL_ON;
        assert(collision_upto(s, x0, y0, row, col + 1));
    }
}

/// A set bit toggles exactly its own cell: that cell was untouched by the
/// draw so far, every other cell's coverage is unchanged, and the bit adds a
/// collision exactly when its cell is lit.
pub proof fn lemma_upto_step_set(s: MachineState, x0: int, y0: int, row: int, col: int)
    requires
        0 <= x0 < 64,
        0 <= y0 < 32,
        0 <= row < 16,
        0 <= col < 8,
        sprite_bit(s, row, col),
    ensures
        covered_upto(s, x0, y0, row, col + 1, target_pix(x0, y0, row, col)),
        !covered_upto(s, x0, y0, row, col, target_pix(x0, y0, row, col)),
        forall|p: int|
            p != target_pix(x0, y0, row, col) ==> covered_upto(s, x0, y0, row, col + 1, p)
                == covered_upto(s, x0, y0, row, col, p),
        collision_upto(s, x0, y0, row, col + 1) == (collision_upto(s, x0, y0, row, col)
            || s.display[target_pix(x0, y0, row, col)] == PIXEL_ON),
{
    let p0 = target_pix(x0, y0, row, col);
    assert(covered_upto(s, x0, y0, row, col + 1, p0));
    if covered_upto(s, x0, y0, row, col, p0) {
        let (r, c) = choose|r: int, c: int|
            0 <= r && 0 <= c < 8 && (r < row || (r == row && c < col)) && #[trigger] sprite_bit(
                s,
                r,
                c,
            ) && target_pix(x0, y0, r, c) == p0;
        lemma_target_pix_inj(x0, y0, r, c, row, col);
        assert(false);
    }
    assert forall|p: int|
        p != p0 implies covered_upto(s, x0, y0, row, col + 1, p) == covered_upto(
            s,
            x0,
            y0,
            row,
            col,
            p,
        ) by {
        {
            if covered_upto(s, x0, y0, row, col + 1, p) {
                let (r, c) = choose|r: int, c: int|
                    0 <= r && 0 <= c < 8 && (r < row || (r == row && c < col + 1))
                        && #[trigger] sprite_bit(s, r, c) && target_pix(x0, y0, r, c) == p;
                assert(!(r == row && c == col));
                assert(covered_upto(s, x0, y0, row, col, p));
            }
            if covered_upto(s, x0, y0, row, col, p) {
                let (r, c) = choose|r: int, c: int|
                    0 <= r && 0 <= c < 8 && (r < row || (r == row && c < col))
                        && #[trigger] sprite_bit(s, r, c) && target_pix(x0, y0, r, c) == p;
                assert(covered_upto(s, x0, y0, row, col + 1, p));
            }
        }
    }
    if collision_upto(s, x0, y0, row, col + 1) {
        let (r, c) = choose|r: int, c: int|
            0 <= r && 0 <= c < 8 && (r < row || (r == row && c < col + 1)) && #[trigger] sprite_bit(
                s,
                r,
                c,
            ) && s.display[target_pix(x0, y0, r, c)] == PIXEL_ON;
        if !(r == row && c == col) {
            assert(collision_upto(s, x0, y0, row, col));
        }
    }
    if collision_upto(s, x0, y0, row, col) {
        let (r, c) = choose|r: int, c: int|
            0 <= r && 0 <= c < 8 && (r < row || (r == row && c < col)) && #[trigger] sprite_bit(
                s,
                r,
                c,
            ) && s.display[target_pix(x0, y0, r, c)] == PIXEL_ON;
        assert(collision_upto(s, x0, y0, row, col + 1));
    }
    if s.display[p0] == PIXEL_ON {
        assert(collision_upto(s, x0, y0, row, col + 1));
    }
}

/// Finishing a sprite row is the same point in the draw as starting the
/// next one.
pub proof fn lemma_upto_row_step(s: MachineState, x0: int, y0: int, row: int)
    requires
        0 <= row,
    ensures
        forall|p: int|
            covered_upto(s, x0, y0, row + 1, 0, p) == covered_upto(s, x0, y0, row, 8, p),
        collision_upto(s, x0, y0, row + 1, 0) == collision_upto(s, x0, y0, row, 8),
{
    assert forall|p: int|
        covered_upto(s, x0, y0, row + 1, 0, p) == covered_upto(s, x0, y0, row, 8, p) by {
        if covered_upto(s, x0, y0, row + 1, 0, p) {
            let (r, c) = choose|r: int, c: int|
                0 <= r && 0 <= c < 8 && (r < row + 1 || (r == row + 1 && c < 0))
                    && #[trigger] sprite_bit(s, r, c) && target_pix(x0, y0, r, c) == p;
            assert(r < row || (r == row && c < 8));
            assert(covered_upto(s, x0, y0, row, 8, p));
        }
        if covered_upto(s, x0, y0, row, 8, p) {
            let (r, c) = choose|r: int, c: int|
                0 <= r && 0 <= c < 8 && (r < row || (r == row && c < 8)) && #[trigger] sprite_bit(
                    s,
                    r,
                    c,
                ) && target_pix(x0, y0, r, c) == p;
            assert(covered_upto(s, x0, y0, row + 1, 0, p));
        }
    }
    if collision_upto(s, x0, y0, row + 1, 0) {
        let (r, c) = choose|r: int, c: int|
            0 <= r && 0 <= c < 8 && (r < row + 1 || (r == row + 1 && c < 0)) && #[trigger] sprite_bit(
                s,
                r,
                c,
            ) && s.display[target_pix(x0, y0, r, c)] == PIXEL_ON;
        assert(r < row || (r == row && c < 8));
        assert(collision_upto(s, x0, y0, row, 8));
    }
    if collision_upto(s, x0, y0, row, 8) {
        let (r, c) = choose|r: int, c: int|
            0 <= r && 0 <= c < 8 && (r < row || (r == row && c < 8)) && #[trigger] sprite_bit(
                s,
                r,
                c,
            ) && s.display[target_pix(x0, y0, r, c)] == PIXEL_ON;
        assert(collision_upto(s, x0, y0, row + 1, 0));
    }
}

/// Dispatch one decoded instruction; `b` is the byte a random draw would
/// produce. An unassigned word is a deliberate no-op.
pub open spec fn spec_execute(s: MachineState, i: Instr, b: u8) -> Result<MachineState, Fault> {
    match i {
        Instr::Op00E0 => Ok(spec_op_00e0(s)),
        Instr::Op00EE => spec_op_00ee(s),
        Instr::Op1NNN => Ok(spec_op_1nnn(s)),
        Instr::Op2NNN => spec_op_2nnn(s),
        Instr::Op3XKK => Ok(spec_op_3xkk(s)),
        Instr::Op4XKK => Ok(spec_op_4xkk(s)),
        Instr::Op5XY0 => Ok(spec_op_5xy0(s)),
        Instr::Op6XKK => Ok(spec_op_6xkk(s)),
        Instr::Op7XKK => Ok(spec_op_7xkk(s)),
        Instr::Op8XY0 => Ok(spec_op_8xy0(s)),
        Instr::Op8XY1 => Ok(spec_op_8xy1(s)),
        Instr::Op8XY2 => Ok(spec_op_8xy2(s)),
        Instr::Op8XY3 => Ok(spec_op_8xy3(s)),
        Instr::Op8XY4 => Ok(spec_op_8xy4(s)),
        Instr::Op8XY5 => Ok(spec_op_8xy5(s)),
        Instr::Op8XY6 => Ok(spec_op_8xy6(s)),
        Instr::Op8XY7 => Ok(spec_op_8xy7(s)),
        Instr::Op8XYE => Ok(spec_op_8xye(s)),
        Instr::Op9XY0 => Ok(spec_op_9xy0(s)),
        Instr::OpANNN => Ok(spec_op_annn(s)),
        Instr::OpBNNN => Ok(spec_op_bnnn(s)),
        Instr::OpCXKK => Ok(spec_op_cxkk(s, b)),
        Instr::OpDXYN => spec_op_dxyn(s),
        Instr::OpEX9E => spec_op_ex9e(s),
        Instr::OpEXA1 => spec_op_exa1(s),
        Instr::OpFX07 => Ok(spec_op_fx07(s)),
        Instr::OpFX0A => Ok(spec_op_fx0a(s)),
        Instr::OpFX15 => Ok(spec_op_fx15(s)),
        Instr::OpFX18 => Ok(spec_op_fx18(s)),
        Instr::OpFX1E => spec_op_fx1e(s),
        Instr::OpFX29 => Ok(spec_op_fx29(s)),
        Instr::OpFX33 => spec_op_fx33(s),
        Instr::OpFX55 => spec_op_fx55(s),
        Instr::OpFX65 => spec_op_fx65(s),
        Instr::Nop => Ok(s),
    }
}

/// Decrement each nonzero timer by one; a zero timer stays at zero.
pub open spec fn spec_tick(s: MachineState) -> MachineState {
    MachineState {
        delay_timer: if s.delay_timer > 0 {
            (s.delay_timer - 1) as u8
        } else {
            0u8
        },
        sound_timer: if s.sound_timer > 0 {
            (s.sound_timer - 1) as u8
        } else {
            0u8
        },
        ..s
    }
}

/// The big-endian instruction word at the program counter.
pub open spec fn fetch_word(s: MachineState) -> u16 {
    ((s.memory[s.pc as int] as u16) << 8) | (s.memory[s.pc as int + 1] as u16)
}

/// What one invocation of the cycle driver leaves behind: a completed step,
/// or a fault with the state at the halt, the faulting program counter, and
/// the instruction word.
pub ghost enum CycleOutcome {
    Stepped(MachineState),
    Faulted(MachineState, u16, u16, Fault),
}

/// One fetch-decode-execute-tick step. The program counter must lie in
/// [0, 4094] before the fetch; it is advanced by 2 before the instruction
/// executes, and both timers tick only when the instruction completes. `b`
/// is the byte a random draw would produce.
pub open spec fn spec_cycle(s: MachineState, b: u8) -> CycleOutcome {
    if s.pc > MEMORY_SIZE - 2 {
        CycleOutcome::Faulted(s, s.pc, 0u16, Fault::AddressOutOfRange)
    } else {
        let w = fetch_word(s);
        let fetched = MachineState { opcode: w, pc: (s.pc + 2) as u16, ..s };
        match spec_execute(fetched, spec_decode(w), b) {
            Ok(executed) => CycleOutcome::Stepped(spec_tick(executed)),
            Err(f) => CycleOutcome::Faulted(fetched, s.pc, w, f),
        }
    }
}

} // verus!
