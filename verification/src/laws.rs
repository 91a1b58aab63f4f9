//! Laws of the interpreter, proved over the transition model.
//!
//! Each proof function here states a property of every program and every
//! well-formed machine state; the tests exercise the same properties on
//! concrete values.

use vstd::prelude::*;

use crate::decode::Instr;
use crate::decode::spec_decode;
use crate::model::CycleOutcome;
use crate::model::Fault;
use crate::model::MachineState;
use crate::model::DISPLAY_CELLS;
use crate::model::MEMORY_SIZE;
use crate::model::NUM_KEYS;
use crate::model::PIXEL_ON;
use crate::model::collision_upto;
use crate::model::covered;
use crate::model::covered_upto;
use crate::model::draw_x;
use crate::model::draw_y;
use crate::model::fetch_word;
use crate::model::first_pressed_from;
use crate::model::lemma_first_pressed;
use crate::model::lemma_op_fields;
use crate::model::op_n;
use crate::model::op_nnn;
use crate::model::op_x;
use crate::model::op_y;
use crate::model::spec_cycle;
use crate::model::spec_op_dxyn;
use crate::model::sprite_bit;
use crate::model::target_pix;

verus! {

/// The instructions that may leave the program counter anywhere other than
/// two past the fetched word: jump, call, return, the four comparison
/// skips, the two key skips, and the key wait.
pub open spec fn retargets_pc(i: Instr) -> bool {
    ||| i is Op00EE
    ||| i is Op1NNN
    ||| i is Op2NNN
    ||| i is Op3XKK
    ||| i is Op4XKK
    ||| i is Op5XY0
    ||| i is Op9XY0
    ||| i is OpBNNN
    ||| i is OpEX9E
    ||| i is OpEXA1
    ||| i is OpFX0A
}

/// A successful step fetches only from within memory — the program counter
/// was within [0, 4094] — and advances the program counter by exactly 2,
/// unless a jump, call, return, skip, or key-wait instruction explicitly
/// retargets it. A counter driven past the fetch range halts the next step
/// with a fault instead of touching memory.
pub proof fn lemma_pc_advances_by_two(s: MachineState, b: u8, stepped: MachineState)
    requires
        s.wf(),
        spec_cycle(s, b) == CycleOutcome::Stepped(stepped),
    ensures
        s.pc <= MEMORY_SIZE - 2,
        !retargets_pc(spec_decode(fetch_word(s))) ==> stepped.pc == s.pc + 2,
        ({
            let i = spec_decode(fetch_word(s));
            (i is Op3XKK || i is Op4XKK || i is Op5XY0 || i is Op9XY0 || i is OpEX9E
                || i is OpEXA1) ==> (stepped.pc == s.pc + 2 || stepped.pc == s.pc + 4)
        }),
        ({
            let i = spec_decode(fetch_word(s));
            !(i is Op00EE) && !(i is OpBNNN) ==> stepped.pc < MEMORY_SIZE + 4
        }),
{
    lemma_op_fields(fetch_word(s));
}

/// For a program whose control flow only targets valid addresses — jump,
/// call, and return targets within [0, 4094], and the counter below 4090
/// wherever a plain advance or skip follows — the program counter is again
/// within [0, 4094] before the next fetch after every successful step.
pub proof fn lemma_pc_stays_fetchable(s: MachineState, b: u8, stepped: MachineState)
    requires
        s.wf(),
        spec_cycle(s, b) == CycleOutcome::Stepped(stepped),
        ({
            let i = spec_decode(fetch_word(s));
            &&& (i is Op1NNN || i is Op2NNN) ==> op_nnn(fetch_word(s)) <= MEMORY_SIZE - 2
            &&& i is OpBNNN ==> op_nnn(fetch_word(s)) + s.registers[0] <= MEMORY_SIZE - 2
            &&& i is Op00EE ==> (s.sp > 0 && s.stack[s.sp - 1] <= MEMORY_SIZE - 2)
            &&& !(i is Op1NNN || i is Op2NNN || i is OpBNNN || i is Op00EE) ==> s.pc
                <= MEMORY_SIZE - 6
        }),
    ensures
        stepped.pc <= MEMORY_SIZE - 2,
{
    lemma_op_fields(fetch_word(s));
}

/// A faulting step halts the machine without corrupting it: the registers,
/// memory, stack, display, key pad, index register, and both timers are
/// exactly as they were before the step — in particular the timers do not
/// tick.
pub proof fn lemma_fault_halts_cleanly(
    s: MachineState,
    b: u8,
    halted: MachineState,
    at: u16,
    word: u16,
    f: Fault,
)
    requires
        s.wf(),
        spec_cycle(s, b) == CycleOutcome::Faulted(halted, at, word, f),
    ensures
        halted.registers == s.registers,
        halted.memory == s.memory,
        halted.stack == s.stack,
        halted.sp == s.sp,
        halted.display == s.display,
        halted.keypad == s.keypad,
        halted.index == s.index,
        halted.delay_timer == s.delay_timer,
        halted.sound_timer == s.sound_timer,
        at == s.pc,
{
}

/// Every step leaves a well-formed machine behind, whether it completes or
/// halts with a fault: the sizes of the register file, memory, stack,
/// key pad, and display never change, the stack pointer stays within its 16
/// slots, the index register stays a 12-bit address, and the display cells
/// stay binary.
pub proof fn lemma_step_preserves_wf(s: MachineState, b: u8)
    requires
        s.wf(),
    ensures
        (match spec_cycle(s, b) {
            CycleOutcome::Stepped(s2) => s2.wf(),
            CycleOutcome::Faulted(f, _, _, _) => f.wf(),
        }),
{
    if s.pc <= MEMORY_SIZE - 2 {
        lemma_op_fields(fetch_word(s));
    }
}

/// Once the timers are set, each nonzero timer falls by exactly 1 on every
/// step that does not write it, and a zero timer stays at zero: neither
/// ever goes below 0.
pub proof fn lemma_timers_decrement(s: MachineState, b: u8, stepped: MachineState)
    requires
        s.wf(),
        spec_cycle(s, b) == CycleOutcome::Stepped(stepped),
    ensures
        !(spec_decode(fetch_word(s)) is OpFX15) ==> stepped.delay_timer == (
        if s.delay_timer > 0 {
            (s.delay_timer - 1) as u8
        } else {
            0u8
        }),
        !(spec_decode(fetch_word(s)) is OpFX18) ==> stepped.sound_timer == (
        if s.sound_timer > 0 {
            (s.sound_timer - 1) as u8
        } else {
            0u8
        }),
{
}

/// A step that executes the key-wait instruction does not advance the
/// program counter while no key-pad flag is set, so the same instruction is
/// fetched again; once some key is pressed, the step records the lowest
/// pressed index into VX and advances normally.
pub proof fn lemma_key_wait_blocks(s: MachineState, b: u8, stepped: MachineState)
    requires
        s.wf(),
        spec_cycle(s, b) == CycleOutcome::Stepped(stepped),
        spec_decode(fetch_word(s)) is OpFX0A,
    ensures
        (forall|k: int| 0 <= k < NUM_KEYS ==> s.keypad[k] == 0) ==> stepped.pc == s.pc
            && stepped.registers == s.registers,
        (exists|k: int| 0 <= k < NUM_KEYS && s.keypad[k] != 0) ==> {
            let first = first_pressed_from(s.keypad, 0);
            &&& 0 <= first < NUM_KEYS
            &&& s.keypad[first] != 0
            &&& forall|k: int| 0 <= k < first ==> s.keypad[k] == 0
            &&& stepped.pc == s.pc + 2
            &&& stepped.registers == s.registers.update(op_x(fetch_word(s)), first as u8)
        },
{
    lemma_first_pressed(s.keypad, 0);
    if exists|k: int| 0 <= k < NUM_KEYS && s.keypad[k] != 0 {
        let k0 = choose|k: int| 0 <= k < NUM_KEYS && s.keypad[k] != 0;
        assert(first_pressed_from(s.keypad, 0) < 16);
    }
}

/// Drawing any sprite over an all-off display reports no collision in VF
/// and lights exactly the cells the sprite's set bits land on, leaving the
/// rest off.
pub proof fn lemma_draw_on_blank_display(s: MachineState)
    requires
        s.wf(),
        forall|p: int| 0 <= p < DISPLAY_CELLS ==> s.display[p] == 0,
        s.index + op_n(s.opcode) <= MEMORY_SIZE,
    ensures
        spec_op_dxyn(s) is Ok,
        spec_op_dxyn(s)->Ok_0.registers[15] == 0,
        forall|p: int|
            0 <= p < DISPLAY_CELLS ==> spec_op_dxyn(s)->Ok_0.display[p] == (if covered(
                s,
                draw_x(s),
                draw_y(s),
                op_n(s.opcode),
                p,
            ) {
                PIXEL_ON
            } else {
                0u32
            }),
{
    lemma_op_fields(s.opcode);
    let h = op_n(s.opcode);
    let x0 = draw_x(s);
    let y0 = draw_y(s);
    if collision_upto(s, x0, y0, h, 0) {
        let (r, c) = choose|r: int, c: int|
            0 <= r && 0 <= c < 8 && (r < h || (r == h && c < 0)) && #[trigger] sprite_bit(s, r, c)
                && s.display[target_pix(x0, y0, r, c)] == PIXEL_ON;
        assert(0 <= target_pix(x0, y0, r, c) < DISPLAY_CELLS);
        assert(false);
    }
}

/// Drawing the same sprite twice at the same position is idempotent with
/// respect to collision: the first draw over an all-off display lights the
/// covered cells with VF reporting 0, and the second turns the same cells
/// back off with VF reporting 1. The coordinate registers may not be VF
/// itself, and the sprite must have at least one set bit in its drawn rows.
pub proof fn lemma_draw_twice_collides(s: MachineState)
    requires
        s.wf(),
        forall|p: int| 0 <= p < DISPLAY_CELLS ==> s.display[p] == 0,
        s.index + op_n(s.opcode) <= MEMORY_SIZE,
        op_x(s.opcode) != 15,
        op_y(s.opcode) != 15,
        exists|r: int, c: int|
            0 <= r < op_n(s.opcode) && 0 <= c < 8 && #[trigger] sprite_bit(s, r, c),
    ensures
        spec_op_dxyn(s) is Ok,
        spec_op_dxyn(s)->Ok_0.registers[15] == 0,
        spec_op_dxyn(spec_op_dxyn(s)->Ok_0) is Ok,
        spec_op_dxyn(spec_op_dxyn(s)->Ok_0)->Ok_0.registers[15] == 1,
        forall|p: int|
            0 <= p < DISPLAY_CELLS ==> spec_op_dxyn(spec_op_dxyn(s)->Ok_0)->Ok_0.display[p] == 0,
{
    lemma_op_fields(s.opcode);
    let h = op_n(s.opcode);
    let x0 = draw_x(s);
    let y0 = draw_y(s);
    lemma_draw_on_blank_display(s);
    let s1 = spec_op_dxyn(s)->Ok_0;
    assert(draw_x(s1) == x0 && draw_y(s1) == y0);
    assert forall|r: int, c: int|
        0 <= r < 16 && 0 <= c < 8 implies (sprite_bit(s1, r, c) == sprite_bit(s, r, c)) by {
        assert(s1.memory == s.memory && s1.index == s.index);
    }
    assert forall|p: int|
        covered_upto(s1, x0, y0, h, 0, p) == covered_upto(s, x0, y0, h, 0, p) by {
        if covered_upto(s1, x0, y0, h, 0, p) {
            let (r, c) = choose|r: int, c: int|
                0 <= r && 0 <= c < 8 && (r < h || (r == h && c < 0)) && #[trigger] sprite_bit(
                    s1,
                    r,
                    c,
                ) && target_pix(x0, y0, r, c) == p;
            assert(sprite_bit(s, r, c));
            assert(covered_upto(s, x0, y0, h, 0, p));
        }
        if covered_upto(s, x0, y0, h, 0, p) {
            let (r, c) = choose|r: int, c: int|
                0 <= r && 0 <= c < 8 && (r < h || (r == h && c < 0)) && #[trigger] sprite_bit(
                    s,
                    r,
                    c,
                ) && target_pix(x0, y0, r, c) == p;
            assert(sprite_bit(s1, r, c));
            assert(covered_upto(s1, x0, y0, h, 0, p));
        }
    }
    let (rb, cb) = choose|r: int, c: int|
        0 <= r < h && 0 <= c < 8 && #[trigger] sprite_bit(s, r, c);
    let pb = target_pix(x0, y0, rb, cb);
    assert(0 <= pb < DISPLAY_CELLS);
    assert(covered_upto(s, x0, y0, h, 0, pb));
    assert(s1.display[pb] == PIXEL_ON);
    assert(sprite_bit(s1, rb, cb));
    assert(collision_upto(s1, x0, y0, h, 0));
    assert(spec_op_dxyn(s1)->Ok_0.registers[15] == 1);
    assert forall|p: int|
        0 <= p < DISPLAY_CELLS implies spec_op_dxyn(s1)->Ok_0.display[p] == 0 by {
        if covered_upto(s, x0, y0, h, 0, p) {
            assert(s1.display[p] == PIXEL_ON);
        } else {
            assert(s1.display[p] == 0);
        }
    }
}

} // verus!
