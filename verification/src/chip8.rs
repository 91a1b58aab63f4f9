//! The interpreter: machine state and the 35 instruction handlers.
//!
//! Every handler is specified against its transition function in
//! `crate::model`; `cycle` performs one fetch-decode-execute-tick step and
//! surfaces faults to the host with the program counter and instruction word
//! that raised them.

use vstd::prelude::*;
use vstd::pervasive::VecAdditionalExecFns;

use crate::decode::Instr;
use crate::decode::decode;
use crate::decode::spec_decode;
use crate::model::CycleOutcome;
use crate::model::Fault;
use crate::model::LoadError;
use crate::model::MachineState;
use crate::model::StepError;
use crate::model::DISPLAY_CELLS;
use crate::model::FONTSET_SIZE;
use crate::model::FONTSET_START_ADDRESS;
use crate::model::MEMORY_SIZE;
use crate::model::NUM_KEYS;
use crate::model::NUM_REGISTERS;
use crate::model::PIXEL_ON;
use crate::model::STACK_DEPTH;
use crate::model::START_ADDRESS;
use crate::model::first_pressed_from;
use crate::model::fontset_seq;
use crate::model::lemma_op_fields;
use crate::model::op_n;
use crate::model::op_x;
use crate::model::fetch_word;
use crate::model::spec_cycle;
use crate::model::spec_tick;
use crate::model::spec_execute;
use crate::model::spec_initial_state;
use crate::model::spec_key;
use crate::model::spec_load;
use crate::model::spec_op_00e0;
use crate::model::spec_op_00ee;
use crate::model::spec_op_1nnn;
use crate::model::spec_op_2nnn;
use crate::model::spec_op_3xkk;
use crate::model::spec_op_4xkk;
use crate::model::spec_op_5xy0;
use crate::model::spec_op_6xkk;
use crate::model::spec_op_7xkk;
use crate::model::spec_op_8xy0;
use crate::model::spec_op_8xy1;
use crate::model::spec_op_8xy2;
use crate::model::spec_op_8xy3;
use crate::model::spec_op_8xy4;
use crate::model::spec_op_8xy5;
use crate::model::spec_op_8xy6;
use crate::model::spec_op_8xy7;
use crate::model::spec_op_8xye;
use crate::model::spec_op_9xy0;
use crate::model::spec_op_annn;
use crate::model::spec_op_bnnn;
use crate::model::spec_op_cxkk;
use crate::model::spec_op_dxyn;
use crate::model::collision_upto;
use crate::model::covered_upto;
use crate::model::draw_x;
use crate::model::draw_y;
use crate::model::flip_pixel;
use crate::model::lemma_upto_row_step;
use crate::model::lemma_upto_step_set;
use crate::model::lemma_upto_step_unset;
use crate::model::sprite_bit;
use crate::model::target_pix;
use crate::model::wrap_x;
use crate::model::wrap_y;
use crate::model::spec_op_ex9e;
use crate::model::spec_op_exa1;
use crate::model::spec_op_fx07;
use crate::model::spec_op_fx0a;
use crate::model::spec_op_fx15;
use crate::model::spec_op_fx18;
use crate::model::spec_op_fx1e;
use crate::model::spec_op_fx29;
use crate::model::spec_op_fx33;
use crate::model::spec_op_fx55;
use crate::model::spec_op_fx65;
use crate::rng::random_byte;
use crate::rng::seed_rng;

verus! {

/// The machine: registers, memory, stack, timers, display, key pad, and the
/// pseudo-random generator. Its ghost view is a `MachineState`.
pub struct Chip8 {
    pub registers: Vec<u8>,
    pub memory: Vec<u8>,
    pub index: u16,
    pub pc: u16,
    pub stack: Vec<u16>,
    pub sp: u8,
    pub delay_timer: u8,
    pub sound_timer: u8,
    pub keypad: Vec<u8>,
    pub display: Vec<u32>,
    pub opcode: u16,
    pub rand_gen: rand::rngs::StdRng,
}

impl View for Chip8 {
    type V = MachineState;

    open spec fn view(&self) -> MachineState {
        MachineState {
            registers: self.registers@,
            memory: self.memory@,
            index: self.index,
            pc: self.pc,
            stack: self.stack@,
            sp: self.sp,
            delay_timer: self.delay_timer,
            sound_timer: self.sound_timer,
            keypad: self.keypad@,
            display: self.display@,
            opcode: self.opcode,
        }
    }
}

/// A vector of `n` copies of `value`.
fn filled_vec<T: Copy>(n: usize, value: T) -> (v: Vec<T>)
    ensures
        v@ == Seq::new(n as nat, |i: int| value),
{
    let mut v: Vec<T> = Vec::new();
    let mut i: usize = 0;
    while i < n
        invariant
            i <= n,
            v@ == Seq::new(i as nat, |j: int| value),
        decreases n - i,
    {
        v.push(value);
        i = i + 1;
        proof {
            assert(v@ =~= Seq::new(i as nat, |j: int| value));
        }
    }
    v
}

/// The built-in glyph set as bytes: 16 hex-digit sprites of 5 bytes each.
pub fn fontset() -> (v: Vec<u8>)
    ensures
        v@ == fontset_seq(),
{
    let v: Vec<u8> = vec![
        0xF0, 0x90, 0x90, 0x90, 0xF0,
        0x20, 0x60, 0x20, 0x20, 0x70,
        0xF0, 0x10, 0xF0, 0x80, 0xF0,
        0xF0, 0x10, 0xF0, 0x10, 0xF0,
        0x90, 0x90, 0xF0, 0x10, 0x10,
        0xF0, 0x80, 0xF0, 0x10, 0xF0,
        0xF0, 0x80, 0xF0, 0x90, 0xF0,
        0xF0, 0x10, 0x20, 0x40, 0x40,
        0xF0, 0x90, 0xF0, 0x90, 0xF0,
        0xF0, 0x90, 0xF0, 0x10, 0xF0,
        0xF0, 0x90, 0xF0, 0x90, 0x90,
        0xE0, 0x90, 0xE0, 0x90, 0xE0,
        0xF0, 0x80, 0x80, 0x80, 0xF0,
        0xE0, 0x90, 0x90, 0x90, 0xE0,
        0xF0, 0x80, 0xF0, 0x80, 0xF0,
        0xF0, 0x80, 0xF0, 0x80, 0x80,
    ];
    proof {
        assert(v@ =~= fontset_seq());
    }
    v
}

impl Chip8 {
    /// A fresh machine: registers, memory, stack, key pad, and display
    /// zeroed, the glyph set copied into memory, the program counter at the
    /// load address, and the random generator seeded.
    pub fn new() -> (c: Chip8)
        ensures
            c@.wf(),
            c@ == spec_initial_state(),
    {
        let mut memory = filled_vec::<u8>(MEMORY_SIZE, 0);
        let font = fontset();
        let mut i: usize = 0;
        while i < FONTSET_SIZE
            invariant
                i <= FONTSET_SIZE,
                font@ == fontset_seq(),
                memory@.len() == MEMORY_SIZE,
                forall|a: int|
                    FONTSET_START_ADDRESS <= a < FONTSET_START_ADDRESS + i ==> memory@[a]
                        == fontset_seq()[a - FONTSET_START_ADDRESS],
                forall|a: int|
                    0 <= a < MEMORY_SIZE && !(FONTSET_START_ADDRESS <= a < FONTSET_START_ADDRESS
                        + i) ==> memory@[a] == 0,
            decreases FONTSET_SIZE - i,
        {
            memory.set(FONTSET_START_ADDRESS + i, font[i]);
            i = i + 1;
        }
        let c = Chip8 {
            registers: filled_vec::<u8>(NUM_REGISTERS, 0),
            memory,
            index: 0,
            pc: START_ADDRESS as u16,
            stack: filled_vec::<u16>(STACK_DEPTH, 0),
            sp: 0,
            delay_timer: 0,
            sound_timer: 0,
            keypad: filled_vec::<u8>(NUM_KEYS, 0),
            display: filled_vec::<u32>(DISPLAY_CELLS, 0),
            opcode: 0,
            rand_gen: seed_rng(),
        };
        proof {
            assert(c@ =~~= spec_initial_state());
        }
        c
    }

    /// Copy a program into memory at the load address. A program longer
    /// than the memory left above that address is rejected whole.
    pub fn load_rom(&mut self, rom: &Vec<u8>) -> (r: Result<(), LoadError>)
        requires
            old(self)@.wf(),
        ensures
            final(self)@.wf(),
            r is Ok <==> rom@.len() <= MEMORY_SIZE - START_ADDRESS,
            (match r {
                Ok(()) => final(self)@ == spec_load(old(self)@, rom@),
                Err(e) => final(self)@ == old(self)@ && e == LoadError::TooLarge,
            }),
    {
        if rom.len() > MEMORY_SIZE - START_ADDRESS {
            return Err(LoadError::TooLarge);
        }
        let mut i: usize = 0;
        while i < rom.len()
            invariant
                old(self)@.wf(),
                i <= rom@.len(),
                rom@.len() <= MEMORY_SIZE - START_ADDRESS,
                self@ == (MachineState { memory: self@.memory, ..old(self)@ }),
                self@.memory.len() == MEMORY_SIZE,
                forall|a: int|
                    START_ADDRESS <= a < START_ADDRESS + i ==> self@.memory[a] == rom@[a
                        - START_ADDRESS],
                forall|a: int|
                    0 <= a < MEMORY_SIZE && !(START_ADDRESS <= a < START_ADDRESS + i)
                        ==> self@.memory[a] == old(self)@.memory[a],
            decreases rom@.len() - i,
        {
            self.memory.set(START_ADDRESS + i, rom[i]);
            i = i + 1;
        }
        proof {
            assert(self@ =~~= spec_load(old(self)@, rom@));
        }
        Ok(())
    }

    /// Record one of the 16 keys as pressed or released; the change is
    /// visible to the next step.
    pub fn key(&mut self, key: u8, state: bool)
        requires
            old(self)@.wf(),
            key < NUM_KEYS,
        ensures
            final(self)@.wf(),
            final(self)@ == spec_key(old(self)@, key, state),
    {
        self.keypad.set(key as usize, if state { 1 } else { 0 });
    }

    /// Clear the display.
    #[allow(non_snake_case)]
    pub fn OP_00E0(&mut self)
        requires
            old(self)@.wf(),
        ensures
            final(self)@.wf(),
            final(self)@ == spec_op_00e0(old(self)@),
    {
        self.display = filled_vec::<u32>(DISPLAY_CELLS, 0);
        proof {
            assert(self@ =~~= spec_op_00e0(old(self)@));
        }
    }

    /// Return from a subroutine: pop the stack into the program counter.
    #[allow(non_snake_case)]
    pub fn OP_00EE(&mut self) -> (r: Result<(), Fault>)
        requires
            old(self)@.wf(),
        ensures
            final(self)@.wf(),
            (match spec_op_00ee(old(self)@) {
                Ok(s1) => r is Ok && final(self)@ == s1,
                Err(f) => r == Err::<(), Fault>(f) && final(self)@ == old(self)@,
            }),
    {
        if self.sp == 0 {
            return Err(Fault::StackUnderflow);
        }
        self.sp = self.sp - 1;
        self.pc = self.stack[self.sp as usize];
        Ok(())
    }

    /// Jump to address NNN.
    #[allow(non_snake_case)]
    pub fn OP_1NNN(&mut self)
        requires
            old(self)@.wf(),
        ensures
            final(self)@.wf(),
            final(self)@ == spec_op_1nnn(old(self)@),
    {
        let address: u16 = self.opcode & 0x0FFF;
        self.pc = address;
    }

    /// Call the subroutine at NNN: push the return address and jump.
    #[allow(non_snake_case)]
    pub fn OP_2NNN(&mut self) -> (r: Result<(), Fault>)
        requires
            old(self)@.wf(),
        ensures
            final(self)@.wf(),
            (match spec_op_2nnn(old(self)@) {
                Ok(s1) => r is Ok && final(self)@ == s1,
                Err(f) => r == Err::<(), Fault>(f) && final(self)@ == old(self)@,
            }),
    {
        if self.sp as usize == STACK_DEPTH {
            return Err(Fault::StackOverflow);
        }
        let address: u16 = self.opcode & 0x0FFF;
        self.stack.set(self.sp as usize, self.pc);
        self.sp = self.sp + 1;
        self.pc = address;
        Ok(())
    }

    /// Skip the next instruction if VX equals the immediate KK.
    #[allow(non_snake_case)]
    pub fn OP_3XKK(&mut self)
        requires
            old(self)@.wf(),
            old(self).pc + 2 <= u16::MAX,
        ensures
            final(self)@.wf(),
            final(self)@ == spec_op_3xkk(old(self)@),
    {
        proof {
            lemma_op_fields(self.opcode);
        }
        let x = ((self.opcode >> 8) & 0xF) as usize;
        let byte = (self.opcode & 0xFF) as u8;
        if self.registers[x] == byte {
            self.pc = self.pc + 2;
        }
    }

    /// Skip the next instruction if VX differs from the immediate KK.
    #[allow(non_snake_case)]
    pub fn OP_4XKK(&mut self)
        requires
            old(self)@.wf(),
            old(self).pc + 2 <= u16::MAX,
        ensures
            final(self)@.wf(),
            final(self)@ == spec_op_4xkk(old(self)@),
    {
        proof {
            lemma_op_fields(self.opcode);
        }
        let x = ((self.opcode >> 8) & 0xF) as usize;
        let byte = (self.opcode & 0xFF) as u8;
        if self.registers[x] != byte {
            self.pc = self.pc + 2;
        }
    }

    /// Skip the next instruction if VX equals VY.
    #[allow(non_snake_case)]
    pub fn OP_5XY0(&mut self)
        requires
            old(self)@.wf(),
            old(self).pc + 2 <= u16::MAX,
        ensures
            final(self)@.wf(),
            final(self)@ == spec_op_5xy0(old(self)@),
    {
        proof {
            lemma_op_fields(self.opcode);
        }
        let x = ((self.opcode >> 8) & 0xF) as usize;
        let y = ((self.opcode >> 4) & 0xF) as usize;
        if self.registers[x] == self.registers[y] {
            self.pc = self.pc + 2;
        }
    }

    /// Load the immediate KK into VX.
    #[allow(non_snake_case)]
    pub fn OP_6XKK(&mut self)
        requires
            old(self)@.wf(),
        ensures
            final(self)@.wf(),
            final(self)@ == spec_op_6xkk(old(self)@),
    {
        proof {
            lemma_op_fields(self.opcode);
        }
        let x = ((self.opcode >> 8) & 0xF) as usize;
        let byte = (self.opcode & 0xFF) as u8;
        self.registers.set(x, byte);
    }

    /// Add the immediate KK to VX, wrapping modulo 256, without touching VF.
    #[allow(non_snake_case)]
    pub fn OP_7XKK(&mut self)
        requires
            old(self)@.wf(),
        ensures
            final(self)@.wf(),
            final(self)@ == spec_op_7xkk(old(self)@),
    {
        proof {
            lemma_op_fields(self.opcode);
        }
        let x = ((self.opcode >> 8) & 0xF) as usize;
        let byte = (self.opcode & 0xFF) as u8;
        self.registers.set(x, self.registers[x].wrapping_add(byte));
    }

    /// Copy VY into VX.
    #[allow(non_snake_case)]
    pub fn OP_8XY0(&mut self)
        requires
            old(self)@.wf(),
        ensures
            final(self)@.wf(),
            final(self)@ == spec_op_8xy0(old(self)@),
    {
        proof {
            lemma_op_fields(self.opcode);
        }
        let x = ((self.opcode >> 8) & 0xF) as usize;
        let y = ((self.opcode >> 4) & 0xF) as usize;
        self.registers.set(x, self.registers[y]);
    }

    /// Bitwise OR of VX and VY into VX.
    #[allow(non_snake_case)]
    pub fn OP_8XY1(&mut self)
        requires
            old(self)@.wf(),
        ensures
            final(self)@.wf(),
            final(self)@ == spec_op_8xy1(old(self)@),
    {
        proof {
            lemma_op_fields(self.opcode);
        }
        let x = ((self.opcode >> 8) & 0xF) as usize;
        let y = ((self.opcode >> 4) & 0xF) as usize;
        self.registers.set(x, self.registers[x] | self.registers[y]);
    }

    /// Bitwise AND of VX and VY into VX.
    #[allow(non_snake_case)]
    pub fn OP_8XY2(&mut self)
        requires
            old(self)@.wf(),
        ensures
            final(self)@.wf(),
            final(self)@ == spec_op_8xy2(old(self)@),
    {
        proof {
            lemma_op_fields(self.opcode);
        }
        let x = ((self.opcode >> 8) & 0xF) as usize;
        let y = ((self.opcode >> 4) & 0xF) as usize;
        self.registers.set(x, self.registers[x] & self.registers[y]);
    }

    /// Bitwise XOR of VX and VY into VX.
    #[allow(non_snake_case)]
    pub fn OP_8XY3(&mut self)
        requires
            old(self)@.wf(),
        ensures
            final(self)@.wf(),
            final(self)@ == spec_op_8xy3(old(self)@),
    {
        proof {
            lemma_op_fields(self.opcode);
        }
        let x = ((self.opcode >> 8) & 0xF) as usize;
        let y = ((self.opcode >> 4) & 0xF) as usize;
        self.registers.set(x, self.registers[x] ^ self.registers[y]);
    }

    /// Add VY to VX; VX becomes the truncated sum and VF the carry, the
    /// flag written last so that it wins when VF is itself an operand.
    #[allow(non_snake_case)]
    pub fn OP_8XY4(&mut self)
        requires
            old(self)@.wf(),
        ensures
            final(self)@.wf(),
            final(self)@ == spec_op_8xy4(old(self)@),
    {
        proof {
            lemma_op_fields(self.opcode);
        }
        let x = ((self.opcode >> 8) & 0xF) as usize;
        let y = ((self.opcode >> 4) & 0xF) as usize;
        let sum: u16 = self.registers[x] as u16 + self.registers[y] as u16;
        self.registers.set(x, (sum & 0xFF) as u8);
        self.registers.set(15, if sum > 255 { 1 } else { 0 });
        proof {
            assert(sum & 0xFF == sum % 256) by (bit_vector);
        }
    }

    /// Subtract VY from VX, wrapping; VF becomes the not-borrow flag
    /// (1 when VX >= VY), written last so that it wins when VF is itself
    /// an operand.
    #[allow(non_snake_case)]
    pub fn OP_8XY5(&mut self)
        requires
            old(self)@.wf(),
        ensures
            final(self)@.wf(),
            final(self)@ == spec_op_8xy5(old(self)@),
    {
        proof {
            lemma_op_fields(self.opcode);
        }
        let x = ((self.opcode >> 8) & 0xF) as usize;
        let y = ((self.opcode >> 4) & 0xF) as usize;
        let vx = self.registers[x];
        let vy = self.registers[y];
        self.registers.set(x, vx.wrapping_sub(vy));
        self.registers.set(15, if vx >= vy { 1 } else { 0 });
    }

    /// Shift VX right by one; VF first receives the shifted-out low bit.
    #[allow(non_snake_case)]
    pub fn OP_8XY6(&mut self)
        requires
            old(self)@.wf(),
        ensures
            final(self)@.wf(),
            final(self)@ == spec_op_8xy6(old(self)@),
    {
        proof {
            lemma_op_fields(self.opcode);
        }
        let x = ((self.opcode >> 8) & 0xF) as usize;
        self.registers.set(15, self.registers[x] & 0x1);
        self.registers.set(x, self.registers[x] >> 1u8);
    }

    /// Subtract VX from VY into VX, wrapping; VF becomes the not-borrow
    /// flag (1 when VY >= VX), written last so that it wins when VF is
    /// itself an operand.
    #[allow(non_snake_case)]
    pub fn OP_8XY7(&mut self)
        requires
            old(self)@.wf(),
        ensures
            final(self)@.wf(),
            final(self)@ == spec_op_8xy7(old(self)@),
    {
        proof {
            lemma_op_fields(self.opcode);
        }
        let x = ((self.opcode >> 8) & 0xF) as usize;
        let y = ((self.opcode >> 4) & 0xF) as usize;
        let vx = self.registers[x];
        let vy = self.registers[y];
        self.registers.set(x, vy.wrapping_sub(vx));
        self.registers.set(15, if vy >= vx { 1 } else { 0 });
    }

    /// Shift VX left by one; VF first receives the shifted-out high bit.
    #[allow(non_snake_case)]
    pub fn OP_8XYE(&mut self)
        requires
            old(self)@.wf(),
        ensures
            final(self)@.wf(),
            final(self)@ == spec_op_8xye(old(self)@),
    {
        proof {
            lemma_op_fields(self.opcode);
        }
        let x = ((self.opcode >> 8) & 0xF) as usize;
        self.registers.set(15, (self.registers[x] & 0x80) >> 7u8);
        let shifted: u8 = self.registers[x] << 1u8;
        self.registers.set(x, shifted);
    }

    /// Skip the next instruction if VX differs from VY.
    #[allow(non_snake_case)]
    pub fn OP_9XY0(&mut self)
        requires
            old(self)@.wf(),
            old(self).pc + 2 <= u16::MAX,
        ensures
            final(self)@.wf(),
            final(self)@ == spec_op_9xy0(old(self)@),
    {
        proof {
            lemma_op_fields(self.opcode);
        }
        let x = ((self.opcode >> 8) & 0xF) as usize;
        let y = ((self.opcode >> 4) & 0xF) as usize;
        if self.registers[x] != self.registers[y] {
            self.pc = self.pc + 2;
        }
    }

    /// Load the address NNN into the index register.
    #[allow(non_snake_case)]
    pub fn OP_ANNN(&mut self)
        requires
            old(self)@.wf(),
        ensures
            final(self)@.wf(),
            final(self)@ == spec_op_annn(old(self)@),
    {
        proof {
            lemma_op_fields(self.opcode);
        }
        let address: u16 = self.opcode & 0x0FFF;
        self.index = address;
    }

    /// Jump to NNN plus V0.
    #[allow(non_snake_case)]
    pub fn OP_BNNN(&mut self)
        requires
            old(self)@.wf(),
        ensures
            final(self)@.wf(),
            final(self)@ == spec_op_bnnn(old(self)@),
    {
        proof {
            lemma_op_fields(self.opcode);
        }
        let address: u16 = self.opcode & 0x0FFF;
        self.pc = address + self.registers[0] as u16;
    }

    /// Load a random byte masked by KK into VX.
    #[allow(non_snake_case)]
    pub fn OP_CXKK(&mut self)
        requires
            old(self)@.wf(),
        ensures
            final(self)@.wf(),
            exists|b: u8| final(self)@ == spec_op_cxkk(old(self)@, b),
    {
        proof {
            lemma_op_fields(self.opcode);
        }
        let x = ((self.opcode >> 8) & 0xF) as usize;
        let byte = (self.opcode & 0xFF) as u8;
        let rnd: u8 = random_byte(&mut self.rand_gen);
        self.registers.set(x, rnd & byte);
        proof {
            assert(self@ == spec_op_cxkk(old(self)@, rnd));
        }
    }

    /// Draw the N-row sprite at the index address at origin (VX mod 64,
    /// VY mod 32): each set bit toggles its cell with wraparound, and VF
    /// reports whether any lit cell was turned off.
    #[allow(non_snake_case)]
    pub fn OP_DXYN(&mut self) -> (r: Result<(), Fault>)
        requires
            old(self)@.wf(),
        ensures
            final(self)@.wf(),
            (match spec_op_dxyn(old(self)@) {
                Ok(s1) => r is Ok && final(self)@ == s1,
                Err(f) => r == Err::<(), Fault>(f) && final(self)@ == old(self)@,
            }),
    {
        proof {
            lemma_op_fields(self.opcode);
        }
        let x = ((self.opcode >> 8) & 0xF) as usize;
        let y = ((self.opcode >> 4) & 0xF) as usize;
        let height = (self.opcode & 0xF) as usize;
        if self.index as usize + height > MEMORY_SIZE {
            return Err(Fault::AddressOutOfRange);
        }
        let x_pos = (self.registers[x] % 64) as usize;
        let y_pos = (self.registers[y] % 32) as usize;
        let ghost s0 = self@;
        let ghost gx0 = draw_x(s0);
        let ghost gy0 = draw_y(s0);
        self.registers.set(15, 0);
        let mut row: usize = 0;
        while row < height
            invariant
                s0.wf(),
                s0 == old(self)@,
                gx0 == draw_x(s0),
                gy0 == draw_y(s0),
                0 <= gx0 < 64,
                0 <= gy0 < 32,
                x_pos == gx0,
                y_pos == gy0,
                height == op_n(s0.opcode),
                height < 16,
                s0.index + height <= MEMORY_SIZE,
                row <= height,
                self@ == (MachineState {
                    registers: self@.registers,
                    display: self@.display,
                    ..s0
                }),
                self@.registers == s0.registers.update(
                    15,
                    if collision_upto(s0, gx0, gy0, row as int, 0) {
                        1u8
                    } else {
                        0u8
                    },
                ),
                self@.display.len() == DISPLAY_CELLS,
                forall|p: int|
                    0 <= p < DISPLAY_CELLS ==> self@.display[p] == (if covered_upto(
                        s0,
                        gx0,
                        gy0,
                        row as int,
                        0,
                        p,
                    ) {
                        flip_pixel(s0.display[p])
                    } else {
                        s0.display[p]
                    }),
            decreases height - row,
        {
            let sprite_byte = self.memory[self.index as usize + row];
            let mut col: usize = 0;
            while col < 8
                invariant
                    s0.wf(),
                    s0 == old(self)@,
                    gx0 == draw_x(s0),
                    gy0 == draw_y(s0),
                    0 <= gx0 < 64,
                    0 <= gy0 < 32,
                    x_pos == gx0,
                    y_pos == gy0,
                    height == op_n(s0.opcode),
                    height < 16,
                    s0.index + height <= MEMORY_SIZE,
                    row < height,
                    col <= 8,
                    sprite_byte == s0.memory[s0.index + row],
                    self@ == (MachineState {
                        registers: self@.registers,
                        display: self@.display,
                        ..s0
                    }),
                    self@.registers == s0.registers.update(
                        15,
                        if collision_upto(s0, gx0, gy0, row as int, col as int) {
                            1u8
                        } else {
                            0u8
                        },
                    ),
                    self@.display.len() == DISPLAY_CELLS,
                    forall|p: int|
                        0 <= p < DISPLAY_CELLS ==> self@.display[p] == (if covered_upto(
                            s0,
                            gx0,
                            gy0,
                            row as int,
                            col as int,
                            p,
                        ) {
                            flip_pixel(s0.display[p])
                        } else {
                            s0.display[p]
                        }),
                decreases 8 - col,
            {
                let mask: u8 = 0x80u8 >> (col as u8);
                if sprite_byte & mask != 0 {
                    let dx = (x_pos + col) % 64;
                    let dy = (y_pos + row) % 32;
                    let idx = dy * 64 + dx;
                    proof {
                        assert(sprite_bit(s0, row as int, col as int));
                        assert(dx == wrap_x(gx0 + col));
                        assert(dy == wrap_y(gy0 + row));
                        assert(idx == target_pix(gx0, gy0, row as int, col as int));
                        assert(idx < DISPLAY_CELLS);
                        lemma_upto_step_set(s0, gx0, gy0, row as int, col as int);
                    }
                    let cur = self.display[idx];
                    proof {
                        assert(cur == s0.display[idx as int]);
                    }
                    if cur == PIXEL_ON {
                        self.registers.set(15, 1);
                    }
                    self.display.set(idx, if cur == PIXEL_ON { 0 } else { PIXEL_ON });
                    proof {
                        assert(self@.registers =~= s0.registers.update(
                            15,
                            if collision_upto(s0, gx0, gy0, row as int, col as int + 1) {
                                1u8
                            } else {
                                0u8
                            },
                        ));
                    }
                } else {
                    proof {
                        assert(!sprite_bit(s0, row as int, col as int));
                        lemma_upto_step_unset(s0, gx0, gy0, row as int, col as int);
                    }
                }
                col = col + 1;
            }
            proof {
                lemma_upto_row_step(s0, gx0, gy0, row as int);
            }
            row = row + 1;
        }
        proof {
            let s1 = (match spec_op_dxyn(s0) {
                Ok(s1) => s1,
                Err(_) => s0,
            });
            assert(self@.display =~= s1.display);
            assert(self@.registers =~= s1.registers);
            assert(self@ =~~= s1);
        }
        Ok(())
    }

    /// Skip the next instruction if the key indexed by VX is pressed.
    #[allow(non_snake_case)]
    pub fn OP_EX9E(&mut self) -> (r: Result<(), Fault>)
        requires
            old(self)@.wf(),
            old(self).pc + 2 <= u16::MAX,
        ensures
            final(self)@.wf(),
            (match spec_op_ex9e(old(self)@) {
                Ok(s1) => r is Ok && final(self)@ == s1,
                Err(f) => r == Err::<(), Fault>(f) && final(self)@ == old(self)@,
            }),
    {
        proof {
            lemma_op_fields(self.opcode);
        }
        let x = ((self.opcode >> 8) & 0xF) as usize;
        let key = self.registers[x];
        if key as usize >= NUM_KEYS {
            return Err(Fault::AddressOutOfRange);
        }
        if self.keypad[key as usize] != 0 {
            self.pc = self.pc + 2;
        }
        Ok(())
    }

    /// Skip the next instruction if the key indexed by VX is not pressed.
    #[allow(non_snake_case)]
    pub fn OP_EXA1(&mut self) -> (r: Result<(), Fault>)
        requires
            old(self)@.wf(),
            old(self).pc + 2 <= u16::MAX,
        ensures
            final(self)@.wf(),
            (match spec_op_exa1(old(self)@) {
                Ok(s1) => r is Ok && final(self)@ == s1,
                Err(f) => r == Err::<(), Fault>(f) && final(self)@ == old(self)@,
            }),
    {
        proof {
            lemma_op_fields(self.opcode);
        }
        let x = ((self.opcode >> 8) & 0xF) as usize;
        let key = self.registers[x];
        if key as usize >= NUM_KEYS {
            return Err(Fault::AddressOutOfRange);
        }
        if self.keypad[key as usize] == 0 {
            self.pc = self.pc + 2;
        }
        Ok(())
    }

    /// Copy the delay timer into VX.
    #[allow(non_snake_case)]
    pub fn OP_FX07(&mut self)
        requires
            old(self)@.wf(),
        ensures
            final(self)@.wf(),
            final(self)@ == spec_op_fx07(old(self)@),
    {
        proof {
            lemma_op_fields(self.opcode);
        }
        let x = ((self.opcode >> 8) & 0xF) as usize;
        self.registers.set(x, self.delay_timer);
    }

    /// Wait for a key: record the lowest pressed key-pad index into VX, or
    /// step the program counter back so this instruction is re-fetched next
    /// cycle while no key is pressed.
    #[allow(non_snake_case)]
    pub fn OP_FX0A(&mut self)
        requires
            old(self)@.wf(),
            old(self).pc >= 2,
        ensures
            final(self)@.wf(),
            final(self)@ == spec_op_fx0a(old(self)@),
    {
        proof {
            lemma_op_fields(self.opcode);
        }
        let x = ((self.opcode >> 8) & 0xF) as usize;
        let mut k: usize = 0;
        while k < NUM_KEYS
            invariant
                old(self)@.wf(),
                self == old(self),
                k <= NUM_KEYS,
                first_pressed_from(self@.keypad, 0) == first_pressed_from(self@.keypad, k as int),
                x == op_x(self@.opcode),
                x < NUM_REGISTERS,
            decreases NUM_KEYS - k,
        {
            if self.keypad[k] != 0 {
                self.registers.set(x, k as u8);
                return ;
            }
            k = k + 1;
        }
        self.pc = self.pc - 2;
    }

    /// Set the delay timer from VX.
    #[allow(non_snake_case)]
    pub fn OP_FX15(&mut self)
        requires
            old(self)@.wf(),
        ensures
            final(self)@.wf(),
            final(self)@ == spec_op_fx15(old(self)@),
    {
        proof {
            lemma_op_fields(self.opcode);
        }
        let x = ((self.opcode >> 8) & 0xF) as usize;
        self.delay_timer = self.registers[x];
    }

    /// Set the sound timer from VX.
    #[allow(non_snake_case)]
    pub fn OP_FX18(&mut self)
        requires
            old(self)@.wf(),
        ensures
            final(self)@.wf(),
            final(self)@ == spec_op_fx18(old(self)@),
    {
        proof {
            lemma_op_fields(self.opcode);
        }
        let x = ((self.opcode >> 8) & 0xF) as usize;
        self.sound_timer = self.registers[x];
    }

    /// Add VX to the index register; the result must stay a 12-bit address.
    #[allow(non_snake_case)]
    pub fn OP_FX1E(&mut self) -> (r: Result<(), Fault>)
        requires
            old(self)@.wf(),
        ensures
            final(self)@.wf(),
            (match spec_op_fx1e(old(self)@) {
                Ok(s1) => r is Ok && final(self)@ == s1,
                Err(f) => r == Err::<(), Fault>(f) && final(self)@ == old(self)@,
            }),
    {
        proof {
            lemma_op_fields(self.opcode);
        }
        let x = ((self.opcode >> 8) & 0xF) as usize;
        let sum: u16 = self.index + self.registers[x] as u16;
        if sum as usize >= MEMORY_SIZE {
            return Err(Fault::AddressOutOfRange);
        }
        self.index = sum;
        Ok(())
    }

    /// Point the index register at the built-in glyph for the hex digit in
    /// VX.
    #[allow(non_snake_case)]
    pub fn OP_FX29(&mut self)
        requires
            old(self)@.wf(),
        ensures
            final(self)@.wf(),
            final(self)@ == spec_op_fx29(old(self)@),
    {
        proof {
            lemma_op_fields(self.opcode);
        }
        let x = ((self.opcode >> 8) & 0xF) as usize;
        let digit = self.registers[x];
        self.index = FONTSET_START_ADDRESS as u16 + 5 * digit as u16;
    }

    /// Store the three decimal digits of VX at the index address: hundreds
    /// first, ones last.
    #[allow(non_snake_case)]
    pub fn OP_FX33(&mut self) -> (r: Result<(), Fault>)
        requires
            old(self)@.wf(),
        ensures
            final(self)@.wf(),
            (match spec_op_fx33(old(self)@) {
                Ok(s1) => r is Ok && final(self)@ == s1,
                Err(f) => r == Err::<(), Fault>(f) && final(self)@ == old(self)@,
            }),
    {
        proof {
            lemma_op_fields(self.opcode);
        }
        let x = ((self.opcode >> 8) & 0xF) as usize;
        if self.index as usize + 2 >= MEMORY_SIZE {
            return Err(Fault::AddressOutOfRange);
        }
        let mut value = self.registers[x];
        self.memory.set(self.index as usize + 2, value % 10);
        value = value / 10;
        self.memory.set(self.index as usize + 1, value % 10);
        value = value / 10;
        self.memory.set(self.index as usize, value % 10);
        Ok(())
    }

    /// Bulk-store registers 0 through X into memory at the index address.
    #[allow(non_snake_case)]
    pub fn OP_FX55(&mut self) -> (r: Result<(), Fault>)
        requires
            old(self)@.wf(),
        ensures
            final(self)@.wf(),
            (match spec_op_fx55(old(self)@) {
                Ok(s1) => r is Ok && final(self)@ == s1,
                Err(f) => r == Err::<(), Fault>(f) && final(self)@ == old(self)@,
            }),
    {
        proof {
            lemma_op_fields(self.opcode);
        }
        let x = ((self.opcode >> 8) & 0xF) as usize;
        if self.index as usize + x >= MEMORY_SIZE {
            return Err(Fault::AddressOutOfRange);
        }
        let base = self.index as usize;
        let mut i: usize = 0;
        while i <= x
            invariant
                old(self)@.wf(),
                i <= x + 1,
                x == op_x(self@.opcode),
                x < NUM_REGISTERS,
                base == old(self)@.index,
                base + x < MEMORY_SIZE,
                self@ == (MachineState { memory: self@.memory, ..old(self)@ }),
                self@.memory.len() == MEMORY_SIZE,
                forall|a: int|
                    base <= a < base + i ==> self@.memory[a] == old(self)@.registers[a - base],
                forall|a: int|
                    0 <= a < MEMORY_SIZE && !(base <= a < base + i) ==> self@.memory[a] == old(
                        self,
                    )@.memory[a],
            decreases x + 1 - i,
        {
            self.memory.set(base + i, self.registers[i]);
            i = i + 1;
        }
        proof {
            let spec_mem = (match spec_op_fx55(old(self)@) {
                Ok(s1) => s1.memory,
                Err(_) => self@.memory,
            });
            assert(self@.memory =~= spec_mem);
        }
        Ok(())
    }

    /// Bulk-load registers 0 through X from memory at the index address.
    #[allow(non_snake_case)]
    pub fn OP_FX65(&mut self) -> (r: Result<(), Fault>)
        requires
            old(self)@.wf(),
        ensures
            final(self)@.wf(),
            (match spec_op_fx65(old(self)@) {
                Ok(s1) => r is Ok && final(self)@ == s1,
                Err(f) => r == Err::<(), Fault>(f) && final(self)@ == old(self)@,
            }),
    {
        proof {
            lemma_op_fields(self.opcode);
        }
        let x = ((self.opcode >> 8) & 0xF) as usize;
        if self.index as usize + x >= MEMORY_SIZE {
            return Err(Fault::AddressOutOfRange);
        }
        let base = self.index as usize;
        let mut i: usize = 0;
        while i <= x
            invariant
                old(self)@.wf(),
                i <= x + 1,
                x == op_x(self@.opcode),
                x < NUM_REGISTERS,
                base == old(self)@.index,
                base + x < MEMORY_SIZE,
                self@ == (MachineState { registers: self@.registers, ..old(self)@ }),
                self@.registers.len() == NUM_REGISTERS,
                forall|j: int| 0 <= j < i ==> self@.registers[j] == old(self)@.memory[base + j],
                forall|j: int|
                    0 <= j < NUM_REGISTERS && !(0 <= j < i) ==> self@.registers[j] == old(
                        self,
                    )@.registers[j],
            decreases x + 1 - i,
        {
            self.registers.set(i, self.memory[base + i]);
            i = i + 1;
        }
        proof {
            let spec_regs = (match spec_op_fx65(old(self)@) {
                Ok(s1) => s1.registers,
                Err(_) => self@.registers,
            });
            assert(self@.registers =~= spec_regs);
        }
        Ok(())
    }

    /// One fetch-decode-execute-tick step. The program counter must lie in
    /// [0, 4094] before the fetch; a fault halts the step and is surfaced
    /// with the program counter and instruction word that raised it, and
    /// the timers do not tick on a faulting step.
    pub fn cycle(&mut self) -> (r: Result<(), StepError>)
        requires
            old(self)@.wf(),
        ensures
            final(self)@.wf(),
            (match r {
                Ok(()) => exists|b: u8|
                    spec_cycle(old(self)@, b) == CycleOutcome::Stepped(final(self)@),
                Err(e) => exists|b: u8|
                    spec_cycle(old(self)@, b) == CycleOutcome::Faulted(
                        final(self)@,
                        e.pc,
                        e.opcode,
                        e.fault,
                    ),
            }),
    {
        if self.pc > (MEMORY_SIZE - 2) as u16 {
            let e = StepError { pc: self.pc, opcode: 0, fault: Fault::AddressOutOfRange };
            proof {
                assert(spec_cycle(self@, 0u8) == CycleOutcome::Faulted(
                    self@,
                    e.pc,
                    e.opcode,
                    e.fault,
                ));
            }
            return Err(e);
        }
        let pc0 = self.pc;
        let hi = self.memory[self.pc as usize];
        let lo = self.memory[self.pc as usize + 1];
        let w: u16 = ((hi as u16) << 8) | (lo as u16);
        self.opcode = w;
        self.pc = self.pc + 2;
        proof {
            assert(w == fetch_word(old(self)@));
            assert(self@ == (MachineState {
                opcode: w,
                pc: (old(self)@.pc + 2) as u16,
                ..old(self)@
            }));
        }
        let instr = decode(w);
        let res: Result<(), Fault> = match instr {
            Instr::Op00E0 => {
                self.OP_00E0();
                Ok(())
            },
            Instr::Op00EE => self.OP_00EE(),
            Instr::Op1NNN => {
                self.OP_1NNN();
                Ok(())
            },
            Instr::Op2NNN => self.OP_2NNN(),
            Instr::Op3XKK => {
                self.OP_3XKK();
                Ok(())
            },
            Instr::Op4XKK => {
                self.OP_4XKK();
                Ok(())
            },
            Instr::Op5XY0 => {
                self.OP_5XY0();
                Ok(())
            },
            Instr::Op6XKK => {
                self.OP_6XKK();
                Ok(())
            },
            Instr::Op7XKK => {
                self.OP_7XKK();
                Ok(())
            },
            Instr::Op8XY0 => {
                self.OP_8XY0();
                Ok(())
            },
            Instr::Op8XY1 => {
                self.OP_8XY1();
                Ok(())
            },
            Instr::Op8XY2 => {
                self.OP_8XY2();
                Ok(())
            },
            Instr::Op8XY3 => {
                self.OP_8XY3();
                Ok(())
            },
            Instr::Op8XY4 => {
                self.OP_8XY4();
                Ok(())
            },
            Instr::Op8XY5 => {
                self.OP_8XY5();
                Ok(())
            },
            Instr::Op8XY6 => {
                self.OP_8XY6();
                Ok(())
            },
            Instr::Op8XY7 => {
                self.OP_8XY7();
                Ok(())
            },
            Instr::Op8XYE => {
                self.OP_8XYE();
                Ok(())
            },
            Instr::Op9XY0 => {
                self.OP_9XY0();
                Ok(())
            },
            Instr::OpANNN => {
                self.OP_ANNN();
                Ok(())
            },
            Instr::OpBNNN => {
                self.OP_BNNN();
                Ok(())
            },
            Instr::OpCXKK => {
                self.OP_CXKK();
                Ok(())
            },
            Instr::OpDXYN => self.OP_DXYN(),
            Instr::OpEX9E => self.OP_EX9E(),
            Instr::OpEXA1 => self.OP_EXA1(),
            Instr::OpFX07 => {
                self.OP_FX07();
                Ok(())
            },
            Instr::OpFX0A => {
                self.OP_FX0A();
                Ok(())
            },
            Instr::OpFX15 => {
                self.OP_FX15();
                Ok(())
            },
            Instr::OpFX18 => {
                self.OP_FX18();
                Ok(())
            },
            Instr::OpFX1E => self.OP_FX1E(),
            Instr::OpFX29 => {
                self.OP_FX29();
                Ok(())
            },
            Instr::OpFX33 => self.OP_FX33(),
            Instr::OpFX55 => self.OP_FX55(),
            Instr::OpFX65 => self.OP_FX65(),
            Instr::Nop => Ok(()),
        };
        let ghost fetched = MachineState {
            opcode: w,
            pc: (old(self)@.pc + 2) as u16,
            ..old(self)@
        };
        match res {
            Ok(()) => {
                proof {
                    if instr is OpCXKK {
                        let b = choose|b: u8| self@ == spec_op_cxkk(fetched, b);
                        assert(spec_execute(fetched, spec_decode(w), b) == Ok::<
                            MachineState,
                            Fault,
                        >(self@));
                    } else {
                        assert(spec_execute(fetched, spec_decode(w), 0u8) == Ok::<
                            MachineState,
                            Fault,
                        >(self@));
                    }
                }
                let ghost executed = self@;
                if self.delay_timer > 0 {
                    self.delay_timer = self.delay_timer - 1;
                }
                if self.sound_timer > 0 {
                    self.sound_timer = self.sound_timer - 1;
                }
                proof {
                    assert(self@ == spec_tick(executed));
                    if instr is OpCXKK {
                        let b = choose|b: u8| executed == spec_op_cxkk(fetched, b);
                        assert(spec_cycle(old(self)@, b) == CycleOutcome::Stepped(self@));
                    } else {
                        assert(spec_cycle(old(self)@, 0u8) == CycleOutcome::Stepped(self@));
                    }
                }
                Ok(())
            },
            Err(f) => {
                let e = StepError { pc: pc0, opcode: w, fault: f };
                proof {
                    assert(spec_execute(fetched, spec_decode(w), 0u8) == Err::<
                        MachineState,
                        Fault,
                    >(f));
                    assert(spec_cycle(old(self)@, 0u8) == CycleOutcome::Faulted(
                        self@,
                        e.pc,
                        e.opcode,
                        e.fault,
                    ));
                }
                Err(e)
            },
        }
    }
}


} // verus!
