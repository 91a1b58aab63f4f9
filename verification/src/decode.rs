//! Instruction decoder.
//!
//! A fetched 16-bit instruction word is mapped to one of the 35 instruction
//! handlers through a tagged union: the top nibble selects the family, and for
//! the ambiguous families (0x0, 0x8, 0xE, 0xF) a second key — the bottom
//! nibble or bottom byte — selects the handler. A word whose secondary key has
//! no assigned handler decodes to `Nop`, a deliberate no-op.

use vstd::prelude::*;

verus! {

/// One tag per instruction handler, plus `Nop` for the unassigned words.
#[allow(non_camel_case_types)]
#[derive(Clone, Copy, Debug, PartialEq, Eq, Structural)]
pub enum Instr {
    Op00E0,
    Op00EE,
    Op1NNN,
    Op2NNN,
    Op3XKK,
    Op4XKK,
    Op5XY0,
    Op6XKK,
    Op7XKK,
    Op8XY0,
    Op8XY1,
    Op8XY2,
    Op8XY3,
    Op8XY4,
    Op8XY5,
    Op8XY6,
    Op8XY7,
    Op8XYE,
    Op9XY0,
    OpANNN,
    OpBNNN,
    OpCXKK,
    OpDXYN,
    OpEX9E,
    OpEXA1,
    OpFX07,
    OpFX0A,
    OpFX15,
    OpFX18,
    OpFX1E,
    OpFX29,
    OpFX33,
    OpFX55,
    OpFX65,
    Nop,
}

/// The handler selected by an instruction word.
pub open spec fn spec_decode(w: u16) -> Instr {
    let hi = (w >> 12) & 0xF;
    if hi == 0x0 {
        if w & 0xF == 0x0 {
            Instr::Op00E0
        } else if w & 0xF == 0xE {
            Instr::Op00EE
        } else {
            Instr::Nop
        }
    } else if hi == 0x1 {
        Instr::Op1NNN
    } else if hi == 0x2 {
        Instr::Op2NNN
    } else if hi == 0x3 {
        Instr::Op3XKK
    } else if hi == 0x4 {
        Instr::Op4XKK
    } else if hi == 0x5 {
        Instr::Op5XY0
    } else if hi == 0x6 {
        Instr::Op6XKK
    } else if hi == 0x7 {
        Instr::Op7XKK
    } else if hi == 0x8 {
        let lo = w & 0xF;
        if lo == 0x0 {
            Instr::Op8XY0
        } else if lo == 0x1 {
            Instr::Op8XY1
        } else if lo == 0x2 {
            Instr::Op8XY2
        } else if lo == 0x3 {
            Instr::Op8XY3
        } else if lo == 0x4 {
            Instr::Op8XY4
        } else if lo == 0x5 {
            Instr::Op8XY5
        } else if lo == 0x6 {
            Instr::Op8XY6
        } else if lo == 0x7 {
            Instr::Op8XY7
        } else if lo == 0xE {
            Instr::Op8XYE
        } else {
            Instr::Nop
        }
    } else if hi == 0x9 {
        Instr::Op9XY0
    } else if hi == 0xA {
        Instr::OpANNN
    } else if hi == 0xB {
        Instr::OpBNNN
    } else if hi == 0xC {
        Instr::OpCXKK
    } else if hi == 0xD {
        Instr::OpDXYN
    } else if hi == 0xE {
        let lo = w & 0xF;
        if lo == 0x1 {
            Instr::OpEXA1
        } else if lo == 0xE {
            Instr::OpEX9E
        } else {
            Instr::Nop
        }
    } else {
        let lo = w & 0xFF;
        if lo == 0x07 {
            Instr::OpFX07
        } else if lo == 0x0A {
            Instr::OpFX0A
        } else if lo == 0x15 {
            Instr::OpFX15
        } else if lo == 0x18 {
            Instr::OpFX18
        } else if lo == 0x1E {
            Instr::OpFX1E
        } else if lo == 0x29 {
            Instr::OpFX29
        } else if lo == 0x33 {
            Instr::OpFX33
        } else if lo == 0x55 {
            Instr::OpFX55
        } else if lo == 0x65 {
            Instr::OpFX65
        } else {
            Instr::Nop
        }
    }
}

/// Decode an instruction word into the tag of its handler.
pub fn decode(w: u16) -> (r: Instr)
    ensures
        r == spec_decode(w),
{
    let hi: u16 = (w >> 12) & 0xF;
    if hi == 0x0 {
        let lo: u16 = w & 0xF;
        if lo == 0x0 {
            Instr::Op00E0
        } else if lo == 0xE {
            Instr::Op00EE
        } else {
            Instr::Nop
        }
    } else if hi == 0x1 {
        Instr::Op1NNN
    } else if hi == 0x2 {
        Instr::Op2NNN
    } else if hi == 0x3 {
        Instr::Op3XKK
    } else if hi == 0x4 {
        Instr::Op4XKK
    } else if hi == 0x5 {
        Instr::Op5XY0
    } else if hi == 0x6 {
        Instr::Op6XKK
    } else if hi == 0x7 {
        Instr::Op7XKK
    } else if hi == 0x8 {
        let lo: u16 = w & 0xF;
        if lo == 0x0 {
            Instr::Op8XY0
        } else if lo == 0x1 {
            Instr::Op8XY1
        } else if lo == 0x2 {
            Instr::Op8XY2
        } else if lo == 0x3 {
            Instr::Op8XY3
        } else if lo == 0x4 {
            Instr::Op8XY4
        } else if lo == 0x5 {
            Instr::Op8XY5
        } else if lo == 0x6 {
            Instr::Op8XY6
        } else if lo == 0x7 {
            Instr::Op8XY7
        } else if lo == 0xE {
            Instr::Op8XYE
        } else {
            Instr::Nop
        }
    } else if hi == 0x9 {
        Instr::Op9XY0
    } else if hi == 0xA {
        Instr::OpANNN
    } else if hi == 0xB {
        Instr::OpBNNN
    } else if hi == 0xC {
        Instr::OpCXKK
    } else if hi == 0xD {
        Instr::OpDXYN
    } else if hi == 0xE {
        let lo: u16 = w & 0xF;
        if lo == 0x1 {
            Instr::OpEXA1
        } else if lo == 0xE {
            Instr::OpEX9E
        } else {
            Instr::Nop
        }
    } else {
        let lo: u16 = w & 0xFF;
        if lo == 0x07 {
            Instr::OpFX07
        } else if lo == 0x0A {
            Instr::OpFX0A
        } else if lo == 0x15 {
            Instr::OpFX15
        } else if lo == 0x18 {
            Instr::OpFX18
        } else if lo == 0x1E {
            Instr::OpFX1E
        } else if lo == 0x29 {
            Instr::OpFX29
        } else if lo == 0x33 {
            Instr::OpFX33
        } else if lo == 0x55 {
            Instr::OpFX55
        } else if lo == 0x65 {
            Instr::OpFX65
        } else {
            Instr::Nop
        }
    }
}

} // verus!
