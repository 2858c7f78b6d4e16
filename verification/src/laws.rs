//! The machine's general laws, proved once and for all over the transition
//! function: what the bitwise register operations touch, where the font
//! instruction points, what a call followed by a return restores, what an
//! out-of-bounds fetch leaves alone, and how the key wait suspends and
//! resumes.

use vstd::prelude::*;
use crate::cpu::{CpuV, execute_spec, has_pressed_key, lowest_pressed_from, step_spec};
use crate::instr::{Instruction, decode_spec};
use crate::memory::{MEMORY_SIZE, font_byte, font_installed, word_at};

verus! {

/// For all registers x, y and all register contents: the
/// register-to-register AND, OR, XOR and copy instructions leave every
/// register but the target unchanged and set the target to the exact
/// bitwise result.
pub proof fn lemma_bitwise_ops_exact(c: CpuV, m: Seq<u8>, rnd: u8, x: u8, y: u8)
    requires
        c.wf(),
        x < 16,
        y < 16,
    ensures
        ({
            let r1 = execute_spec(c, m, Instruction::RegAnd(x, y), rnd).0.regs;
            r1[x as int] == (c.regs[x as int] & c.regs[y as int]) && forall|i: int|
                0 <= i < 16 && i != x ==> r1[i] == c.regs[i]
        }),
        ({
            let r1 = execute_spec(c, m, Instruction::RegOr(x, y), rnd).0.regs;
            r1[x as int] == (c.regs[x as int] | c.regs[y as int]) && forall|i: int|
                0 <= i < 16 && i != x ==> r1[i] == c.regs[i]
        }),
        ({
            let r1 = execute_spec(c, m, Instruction::RegXor(x, y), rnd).0.regs;
            r1[x as int] == (c.regs[x as int] ^ c.regs[y as int]) && forall|i: int|
                0 <= i < 16 && i != x ==> r1[i] == c.regs[i]
        }),
        ({
            let r1 = execute_spec(c, m, Instruction::RegCopy(x, y), rnd).0.regs;
            r1[x as int] == c.regs[y as int] && forall|i: int|
                0 <= i < 16 && i != x ==> r1[i] == c.regs[i]
        }),
{
}

/// The font-address instruction for the digit held in register x points
/// the index register at exactly 5 times that digit, and the five bytes
/// there are the digit's built-in glyph.
pub proof fn lemma_font_addressing(c: CpuV, m: Seq<u8>, rnd: u8, x: u8)
    requires
        c.wf(),
        x < 16,
        font_installed(m),
    ensures
        ({
            let c1 = execute_spec(c, m, Instruction::FontAddress(x), rnd).0;
            let d = (c.regs[x as int] & 0xF) as int;
            0 <= d < 16 && c1.index == 5 * d && forall|k: int|
                0 <= k < 5 ==> m[c1.index + k] == #[trigger] font_byte(d, k)
        }),
{
    let vx = c.regs[x as int];
    assert((vx & 0xF) < 16) by (bit_vector);
    let d = (vx & 0xF) as int;
    assert forall|k: int| 0 <= k < 5 implies m[5 * d + k] == #[trigger] font_byte(d, k) by {
        assert(0 <= 5 * d + k < 80);
        assert(m[5 * d + k] == crate::memory::font_data()[5 * d + k]);
    }
}

/// A call followed by a return leaves the program counter at the
/// instruction just after the call, and restores the call stack, the
/// registers and the display.
pub proof fn lemma_call_return_round_trip(c: CpuV, m: Seq<u8>, rnd1: u8, rnd2: u8, nnn: u16)
    requires
        c.wf(),
        c.pc + 2 < 0x10000,
    ensures
        ({
            let c1 = execute_spec(c, m, Instruction::Call(nnn), rnd1).0;
            let c2 = execute_spec(c1, m, Instruction::Return, rnd2).0;
            c2.pc == c.pc + 2 && c2.stack == c.stack && c2.regs == c.regs && c2.display
                == c.display
        }),
{
    let c1 = execute_spec(c, m, Instruction::Call(nnn), rnd1).0;
    assert(c1.stack.len() == c.stack.len() + 1);
    assert(c1.stack.drop_last() =~= c.stack);
}

/// A program counter that cannot address a full instruction word halts
/// execution without touching any register, the memory, or anything else.
pub proof fn lemma_out_of_bounds_fetch_halts(c: CpuV, m: Seq<u8>, rnd: u8)
    requires
        c.pc + 1 >= MEMORY_SIZE,
    ensures
        step_spec(c, m, rnd) == (c, m, false),
{
}

/// With no key pressed, a step on the wait-for-key instruction changes
/// nothing at all: the same instruction will be fetched again, however
/// often the step is repeated.
pub proof fn lemma_wait_key_blocks(c: CpuV, m: Seq<u8>, rnd: u8, x: u8)
    requires
        c.wf(),
        c.pc + 1 < MEMORY_SIZE,
        decode_spec(word_at(m, c.pc as int)) == Instruction::WaitKey(x),
        forall|k: int| 0 <= k < 16 ==> !(#[trigger] c.keys[k]),
    ensures
        step_spec(c, m, rnd) == (c, m, true),
{
    if has_pressed_key(c.keys) {
        let k = choose|k: int| 0 <= k < 16 && c.keys[k];
        assert(false);
    }
}

/// The pressed key with the lowest index, found by scanning upward.
proof fn lemma_lowest_pressed_from(keys: Seq<bool>, s: int)
    requires
        0 <= s < 16,
        keys.len() == 16,
        exists|k: int| s <= k < 16 && #[trigger] keys[k],
    ensures
        ({
            let k = lowest_pressed_from(keys, s);
            s <= k < 16 && keys[k] && forall|j: int| s <= j < k ==> !(#[trigger] keys[j])
        }),
    decreases 16 - s,
{
    if keys[s] {
    } else {
        let w = choose|k: int| s <= k < 16 && keys[k];
        assert(s + 1 <= w < 16 && keys[w]);
        lemma_lowest_pressed_from(keys, s + 1);
    }
}

/// With some key pressed, a step on the wait-for-key instruction advances
/// the program counter by 2 and stores the lowest-indexed pressed key in
/// the target register, touching nothing else.
pub proof fn lemma_wait_key_receives(c: CpuV, m: Seq<u8>, rnd: u8, x: u8)
    requires
        c.wf(),
        x < 16,
        c.pc + 1 < MEMORY_SIZE,
        decode_spec(word_at(m, c.pc as int)) == Instruction::WaitKey(x),
        has_pressed_key(c.keys),
    ensures
        ({
            let k = lowest_pressed_from(c.keys, 0);
            let c1 = step_spec(c, m, rnd).0;
            0 <= k < 16 && c.keys[k] && (forall|j: int| 0 <= j < k ==> !(#[trigger] c.keys[j]))
                && c1.pc == c.pc + 2 && c1.regs == c.regs.update(x as int, k as u8) && c1.stack
                == c.stack && c1.display == c.display && c1.keys == c.keys && step_spec(c, m, rnd).1
                == m && step_spec(c, m, rnd).2 == true
        }),
{
    let w = choose|k: int| 0 <= k < 16 && c.keys[k];
    assert(0 <= w < 16 && c.keys[w]);
    lemma_lowest_pressed_from(c.keys, 0);
}

} // verus!
