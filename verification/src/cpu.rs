//! The interpreter: registers, call stack, index register, display bitmap,
//! key state and timers, driven by a fetch-decode-execute cycle against
//! `Memory`. Every transition is specified by `step_spec`, a mathematical
//! transition function over `CpuV`, the ghost model of the machine state.

use vstd::prelude::*;
use vstd::arithmetic::div_mod::{lemma_fundamental_div_mod, lemma_mod_add_multiples_vanish};
use crate::memory::{Memory, MEMORY_SIZE, word_at};
use crate::instr::{Instruction, decode, decode_spec};
use crate::display::{
    DISPLAY_CELLS, blit_collision, blit_display, cell_index, collision_upto, display_wf, draw_hit,
    flip_cell, flips_upto, lemma_collision_upto_bit, lemma_collision_upto_empty,
    lemma_collision_upto_row, lemma_flips_upto_bit, lemma_flips_upto_empty, lemma_flips_upto_row,
    lemma_no_earlier_hit_on_target, sprite_row_bit,
};

verus! {

/// First address of a loaded program.
pub const PROGRAM_START: u16 = 0x200;

/// A value reduced to 8 bits.
pub open spec fn wrap8(v: int) -> u8 {
    (v % 256) as u8
}

/// A value reduced to 16 bits.
pub open spec fn wrap16(v: int) -> u16 {
    (v % 0x10000) as u16
}

/// The flag register's encoding of a condition.
pub open spec fn flag_byte(b: bool) -> u8 {
    if b {
        1u8
    } else {
        0u8
    }
}

/// Some key is pressed.
pub open spec fn has_pressed_key(keys: Seq<bool>) -> bool {
    exists|k: int| 0 <= k < 16 && #[trigger] keys[k]
}

/// The lowest-indexed pressed key at or above `k`; 16 when none is.
pub open spec fn lowest_pressed_from(keys: Seq<bool>, k: int) -> int
    decreases 16 - k,
{
    if k < 0 || k >= 16 {
        16
    } else if keys[k] {
        k
    } else {
        lowest_pressed_from(keys, k + 1)
    }
}

/// The machine state as mathematics: the model every contract speaks of.
#[verifier::ext_equal]
pub ghost struct CpuV {
    /// The sixteen 8-bit general-purpose registers; register 15 doubles as
    /// the flag register.
    pub regs: Seq<u8>,
    /// Return addresses, most recent last.
    pub stack: Seq<u16>,
    /// Address of the next instruction to fetch.
    pub pc: u16,
    /// The 16-bit address base for sprite, register-block and decimal
    /// stores.
    pub index: u16,
    /// The 64x32 bitmap, row-major, one byte per cell, each 0 or 1.
    pub display: Seq<u8>,
    /// One pressed-flag per key.
    pub keys: Seq<bool>,
    /// The delay timer byte.
    pub delay: u8,
    /// The sound timer byte.
    pub sound: u8,
}

impl CpuV {
    /// Every component has its fixed size and the display holds only
    /// single-bit cells.
    pub open spec fn wf(self) -> bool {
        self.regs.len() == 16 && self.keys.len() == 16 && display_wf(self.display)
    }
}

/// The machine as it stands after construction: everything cleared, the
/// program counter at the program area.
pub open spec fn initial_cpu() -> CpuV {
    CpuV {
        regs: Seq::new(16, |i: int| 0u8),
        stack: Seq::empty(),
        pc: PROGRAM_START,
        index: 0,
        display: Seq::new(DISPLAY_CELLS as nat, |i: int| 0u8),
        keys: Seq::new(16, |i: int| false),
        delay: 0,
        sound: 0,
    }
}

/// What executing one decoded instruction does to the machine and to
/// memory, and whether execution may continue. `rnd` stands for the byte
/// the random-number instruction draws. The boolean is false exactly on a
/// fatal addressing fault, which leaves the state untouched.
pub open spec fn execute_spec(c: CpuV, m: Seq<u8>, ins: Instruction, rnd: u8) -> (CpuV, Seq<u8>, bool) {
    match ins {
        Instruction::ClearDisplay => (
            CpuV {
                display: Seq::new(DISPLAY_CELLS as nat, |i: int| 0u8),
                pc: wrap16(c.pc + 2),
                ..c
            },
            m,
            true,
        ),
        Instruction::Return => if c.stack.len() == 0 {
            (CpuV { pc: wrap16(c.pc + 2), ..c }, m, true)
        } else {
            (CpuV { pc: c.stack.last(), stack: c.stack.drop_last(), ..c }, m, true)
        },
        Instruction::Jump(nnn) => (CpuV { pc: nnn, ..c }, m, true),
        Instruction::Call(nnn) => (
            CpuV { stack: c.stack.push(wrap16(c.pc + 2)), pc: nnn, ..c },
            m,
            true,
        ),
        Instruction::SkipEqImm(x, nn) => (
            CpuV { pc: wrap16(c.pc + if c.regs[x as int] == nn { 4int } else { 2int }), ..c },
            m,
            true,
        ),
        Instruction::SkipNeImm(x, nn) => (
            CpuV { pc: wrap16(c.pc + if c.regs[x as int] != nn { 4int } else { 2int }), ..c },
            m,
            true,
        ),
        Instruction::SkipEqReg(x, y) => (
            CpuV {
                pc: wrap16(c.pc + if c.regs[x as int] == c.regs[y as int] { 4int } else { 2int }),
                ..c
            },
            m,
            true,
        ),
        Instruction::LoadImm(x, nn) => (
            CpuV { regs: c.regs.update(x as int, nn), pc: wrap16(c.pc + 2), ..c },
            m,
            true,
        ),
        Instruction::AddImm(x, nn) => (
            CpuV {
                regs: c.regs.update(x as int, wrap8(c.regs[x as int] + nn)),
                pc: wrap16(c.pc + 2),
                ..c
            },
            m,
            true,
        ),
        Instruction::RegCopy(x, y) => (
            CpuV { regs: c.regs.update(x as int, c.regs[y as int]), pc: wrap16(c.pc + 2), ..c },
            m,
            true,
        ),
        Instruction::RegOr(x, y) => (
            CpuV {
                regs: c.regs.update(x as int, c.regs[x as int] | c.regs[y as int]),
                pc: wrap16(c.pc + 2),
                ..c
            },
            m,
            true,
        ),
        Instruction::RegAnd(x, y) => (
            CpuV {
                regs: c.regs.update(x as int, c.regs[x as int] & c.regs[y as int]),
                pc: wrap16(c.pc + 2),
                ..c
            },
            m,
            true,
        ),
        Instruction::RegXor(x, y) => (
            CpuV {
                regs: c.regs.update(x as int, c.regs[x as int] ^ c.regs[y as int]),
                pc: wrap16(c.pc + 2),
                ..c
            },
            m,
            true,
        ),
        Instruction::RegAdd(x, y) => (
            {
                let flagged = c.regs.update(
                    15,
                    flag_byte(c.regs[x as int] + c.regs[y as int] > 255),
                );
                CpuV {
                    regs: flagged.update(
                        x as int,
                        wrap8(flagged[x as int] + flagged[y as int]),
                    ),
                    pc: wrap16(c.pc + 2),
                    ..c
                }
            },
            m,
            true,
        ),
        Instruction::RegSub(x, y) => (
            {
                let flagged = c.regs.update(
                    15,
                    flag_byte(c.regs[x as int] >= c.regs[y as int]),
                );
                CpuV {
                    regs: flagged.update(
                        x as int,
                        wrap8(flagged[x as int] - flagged[y as int]),
                    ),
                    pc: wrap16(c.pc + 2),
                    ..c
                }
            },
            m,
            true,
        ),
        Instruction::RegShr(x) => (
            {
                let flagged = c.regs.update(15, c.regs[x as int] & 1);
                CpuV {
                    regs: flagged.update(x as int, flagged[x as int] >> 1u8),
                    pc: wrap16(c.pc + 2),
                    ..c
                }
            },
            m,
            true,
        ),
        Instruction::RegSubRev(x, y) => (
            {
                let flagged = c.regs.update(
                    15,
                    flag_byte(c.regs[y as int] >= c.regs[x as int]),
                );
                CpuV {
                    regs: flagged.update(
                        x as int,
                        wrap8(flagged[y as int] - flagged[x as int]),
                    ),
                    pc: wrap16(c.pc + 2),
                    ..c
                }
            },
            m,
            true,
        ),
        Instruction::RegShl(x) => (
            {
                let flagged = c.regs.update(15, (c.regs[x as int] & 0x80) >> 7u8);
                CpuV {
                    regs: flagged.update(x as int, wrap8(flagged[x as int] * 2)),
                    pc: wrap16(c.pc + 2),
                    ..c
                }
            },
            m,
            true,
        ),
        Instruction::SkipNeReg(x, y) => (
            CpuV {
                pc: wrap16(c.pc + if c.regs[x as int] != c.regs[y as int] { 4int } else { 2int }),
                ..c
            },
            m,
            true,
        ),
        Instruction::SetIndex(nnn) => (
            CpuV { index: nnn, pc: wrap16(c.pc + 2), ..c },
            m,
            true,
        ),
        Instruction::JumpOffset(nnn) => (
            CpuV { pc: wrap16(nnn + c.regs[0]), ..c },
            m,
            true,
        ),
        Instruction::Random(x, nn) => (
            CpuV { regs: c.regs.update(x as int, rnd & nn), pc: wrap16(c.pc + 2), ..c },
            m,
            true,
        ),
        Instruction::Draw(x, y, n) => if c.index + n > MEMORY_SIZE {
            (c, m, false)
        } else {
            (
                CpuV {
                    display: blit_display(
                        c.display,
                        m,
                        c.index as int,
                        c.regs[x as int] as int,
                        c.regs[y as int] as int,
                        n as int,
                    ),
                    regs: c.regs.update(
                        15,
                        flag_byte(
                            blit_collision(
                                c.display,
                                m,
                                c.index as int,
                                c.regs[x as int] as int,
                                c.regs[y as int] as int,
                                n as int,
                            ),
                        ),
                    ),
                    pc: wrap16(c.pc + 2),
                    ..c
                },
                m,
                true,
            )
        },
        Instruction::SkipKeyPressed(x) => (
            CpuV {
                pc: wrap16(
                    c.pc + if c.keys[c.regs[x as int] as int % 16] { 4int } else { 2int },
                ),
                ..c
            },
            m,
            true,
        ),
        Instruction::SkipKeyNotPressed(x) => (
            CpuV {
                pc: wrap16(
                    c.pc + if !c.keys[c.regs[x as int] as int % 16] { 4int } else { 2int },
                ),
                ..c
            },
            m,
            true,
        ),
        Instruction::ReadDelay(x) => (
            CpuV { regs: c.regs.update(x as int, c.delay), pc: wrap16(c.pc + 2), ..c },
            m,
            true,
        ),
        Instruction::WaitKey(x) => if has_pressed_key(c.keys) {
            (
                CpuV {
                    regs: c.regs.update(x as int, lowest_pressed_from(c.keys, 0) as u8),
                    pc: wrap16(c.pc + 2),
                    ..c
                },
                m,
                true,
            )
        } else {
            (c, m, true)
        },
        Instruction::SetDelay(x) => (
            CpuV { delay: c.regs[x as int], pc: wrap16(c.pc + 2), ..c },
            m,
            true,
        ),
        Instruction::SetSound(x) => (
            CpuV { sound: c.regs[x as int], pc: wrap16(c.pc + 2), ..c },
            m,
            true,
        ),
        Instruction::AddIndex(x) => (
            CpuV { index: wrap16(c.index + c.regs[x as int]), pc: wrap16(c.pc + 2), ..c },
            m,
            true,
        ),
        Instruction::FontAddress(x) => (
            CpuV { index: ((c.regs[x as int] & 0xF) * 5) as u16, pc: wrap16(c.pc + 2), ..c },
            m,
            true,
        ),
        Instruction::StoreBcd(x) => if c.index + 2 >= MEMORY_SIZE {
            (c, m, false)
        } else {
            (
                CpuV { pc: wrap16(c.pc + 2), ..c },
                m.update(c.index as int, (c.regs[x as int] / 100) as u8).update(
                    c.index + 1,
                    ((c.regs[x as int] / 10) % 10) as u8,
                ).update(c.index + 2, (c.regs[x as int] % 10) as u8),
                true,
            )
        },
        Instruction::StoreRegs(x) => if c.index + x >= MEMORY_SIZE {
            (c, m, false)
        } else {
            (
                CpuV { pc: wrap16(c.pc + 2), ..c },
                Seq::new(
                    m.len(),
                    |j: int|
                        if c.index <= j <= c.index + x {
                            c.regs[j - c.index]
                        } else {
                            m[j]
                        },
                ),
                true,
            )
        },
        Instruction::LoadRegs(x) => if c.index + x >= MEMORY_SIZE {
            (c, m, false)
        } else {
            (
                CpuV {
                    regs: Seq::new(
                        16,
                        |j: int|
                            if 0 <= j <= x {
                                m[c.index + j]
                            } else {
                                c.regs[j]
                            },
                    ),
                    pc: wrap16(c.pc + 2),
                    ..c
                },
                m,
                true,
            )
        },
        Instruction::Unknown => (CpuV { pc: wrap16(c.pc + 2), ..c }, m, true),
    }
}

/// One whole step: validate the program counter, fetch, decode, execute.
/// A program counter that cannot address a full instruction word is a
/// fatal fault: the machine halts untouched.
pub open spec fn step_spec(c: CpuV, m: Seq<u8>, rnd: u8) -> (CpuV, Seq<u8>, bool) {
    if c.pc + 1 >= MEMORY_SIZE {
        (c, m, false)
    } else {
        execute_spec(c, m, decode_spec(word_at(m, c.pc as int)), rnd)
    }
}

pub struct Cpu {
    registers: Vec<u8>,
    return_stack: Vec<u16>,
    pc: u16,
    i_register: u16,
    display: Vec<u8>,
    keys: Vec<bool>,
    delay_timer: u8,
    sound_timer: u8,
}

impl View for Cpu {
    type V = CpuV;

    closed spec fn view(&self) -> CpuV {
        CpuV {
            regs: self.registers@,
            stack: self.return_stack@,
            pc: self.pc,
            index: self.i_register,
            display: self.display@,
            keys: self.keys@,
            delay: self.delay_timer,
            sound: self.sound_timer,
        }
    }
}

impl Cpu {
    /// The executable state matches the model's well-formedness.
    pub open spec fn wf(&self) -> bool {
        self@.wf()
    }

    pub fn new() -> (cpu: Cpu)
        ensures
            cpu.wf(),
            cpu@ == initial_cpu(),
    {
        let mut registers: Vec<u8> = Vec::new();
        let mut i: usize = 0;
        while i < 16
            invariant
                i <= 16,
                registers@.len() == i,
                forall|j: int| 0 <= j < i ==> registers@[j] == 0u8,
            decreases 16 - i,
        {
            registers.push(0);
            i = i + 1;
        }
        let mut display: Vec<u8> = Vec::new();
        let mut d: usize = 0;
        while d < DISPLAY_CELLS
            invariant
                d <= DISPLAY_CELLS,
                display@.len() == d,
                forall|j: int| 0 <= j < d ==> display@[j] == 0u8,
            decreases DISPLAY_CELLS - d,
        {
            display.push(0);
            d = d + 1;
        }
        let mut keys: Vec<bool> = Vec::new();
        let mut k: usize = 0;
        while k < 16
            invariant
                k <= 16,
                keys@.len() == k,
                forall|j: int| 0 <= j < k ==> !keys@[j],
            decreases 16 - k,
        {
            keys.push(false);
            k = k + 1;
        }
        let cpu = Cpu {
            registers,
            return_stack: Vec::new(),
            pc: PROGRAM_START,
            i_register: 0,
            display,
            keys,
            delay_timer: 0,
            sound_timer: 0,
        };
        proof {
            assert(cpu@.regs =~= initial_cpu().regs);
            assert(cpu@.display =~= initial_cpu().display);
            assert(cpu@.keys =~= initial_cpu().keys);
            assert(cpu@.stack =~= initial_cpu().stack);
            assert(cpu@ =~= initial_cpu());
        }
        cpu
    }

    /// Read the program counter.
    pub fn read_pc(&self) -> (pc: u16)
        ensures
            pc == self@.pc,
    {
        self.pc
    }

    /// Write the program counter.
    pub fn write_pc(&mut self, value: u16)
        ensures
            final(self)@ == (CpuV { pc: value, ..old(self)@ }),
    {
        self.pc = value;
    }

    pub fn write_register(&mut self, register: usize, value: u8)
        requires
            old(self).wf(),
            register < 16,
        ensures
            final(self).wf(),
            final(self)@ == (CpuV { regs: old(self)@.regs.update(register as int, value), ..old(self)@ }),
    {
        self.registers.set(register, value);
    }

    pub fn read_register(&self, register: usize) -> (value: u8)
        requires
            self.wf(),
            register < 16,
        ensures
            value == self@.regs[register as int],
    {
        self.registers[register]
    }

    /// Read the index register.
    pub fn read_i_register(&self) -> (value: u16)
        ensures
            value == self@.index,
    {
        self.i_register
    }

    /// Write the index register.
    pub fn write_i_register(&mut self, value: u16)
        ensures
            final(self)@ == (CpuV { index: value, ..old(self)@ }),
    {
        self.i_register = value;
    }

    /// Read the delay timer, for the external 60 Hz collaborator.
    pub fn read_delay_timer(&self) -> (value: u8)
        ensures
            value == self@.delay,
    {
        self.delay_timer
    }

    /// Write the delay timer, for the external 60 Hz collaborator.
    pub fn write_delay_timer(&mut self, value: u8)
        ensures
            final(self)@ == (CpuV { delay: value, ..old(self)@ }),
    {
        self.delay_timer = value;
    }

    /// Read the sound timer, for the external 60 Hz collaborator.
    pub fn read_sound_timer(&self) -> (value: u8)
        ensures
            value == self@.sound,
    {
        self.sound_timer
    }

    /// Write the sound timer, for the external 60 Hz collaborator.
    pub fn write_sound_timer(&mut self, value: u8)
        ensures
            final(self)@ == (CpuV { sound: value, ..old(self)@ }),
    {
        self.sound_timer = value;
    }

    /// Read one display cell, for the rendering collaborator: 1 when lit.
    pub fn pixel(&self, row: usize, col: usize) -> (v: u8)
        requires
            self.wf(),
            row < crate::display::DISPLAY_HEIGHT,
            col < crate::display::DISPLAY_WIDTH,
        ensures
            v == self@.display[cell_index(row as int, col as int)],
    {
        self.display[row * 64 + col]
    }

    /// Set every display cell to unlit.
    pub fn clear_display(&mut self)
        requires
            old(self).wf(),
        ensures
            final(self).wf(),
            final(self)@ == (CpuV {
                display: Seq::new(DISPLAY_CELLS as nat, |i: int| 0u8),
                ..old(self)@
            }),
    {
        let mut i: usize = 0;
        while i < DISPLAY_CELLS
            invariant
                old(self).wf(),
                i <= DISPLAY_CELLS,
                self@.display.len() == DISPLAY_CELLS,
                forall|j: int| 0 <= j < i ==> self@.display[j] == 0u8,
                self@.regs == old(self)@.regs,
                self@.stack == old(self)@.stack,
                self@.pc == old(self)@.pc,
                self@.index == old(self)@.index,
                self@.keys == old(self)@.keys,
                self@.delay == old(self)@.delay,
                self@.sound == old(self)@.sound,
            decreases DISPLAY_CELLS - i,
        {
            self.display.set(i, 0);
            i = i + 1;
        }
        proof {
            assert(self@.display =~= Seq::new(DISPLAY_CELLS as nat, |i: int| 0u8));
            assert(self@ =~= (CpuV {
                display: Seq::new(DISPLAY_CELLS as nat, |i: int| 0u8),
                ..old(self)@
            }));
        }
    }

    /// Record a key as pressed or released, for the input collaborator.
    pub fn set_key(&mut self, key: usize, pressed: bool)
        requires
            old(self).wf(),
            key < 16,
        ensures
            final(self).wf(),
            final(self)@ == (CpuV { keys: old(self)@.keys.update(key as int, pressed), ..old(self)@ }),
    {
        self.keys.set(key, pressed);
    }

    /// The lowest-indexed pressed key, if any key is pressed.
    fn lowest_pressed_key(&self) -> (r: Option<u8>)
        requires
            self.wf(),
        ensures
            match r {
                Some(k) => has_pressed_key(self@.keys) && k < 16 && k as int
                    == lowest_pressed_from(self@.keys, 0),
                None => !has_pressed_key(self@.keys),
            },
    {
        let mut k: usize = 0;
        while k < 16
            invariant
                self.wf(),
                k <= 16,
                forall|j: int| 0 <= j < k ==> !self@.keys[j],
                lowest_pressed_from(self@.keys, 0) == lowest_pressed_from(self@.keys, k as int),
            decreases 16 - k,
        {
            if self.keys[k] {
                return Some(k as u8);
            }
            k = k + 1;
        }
        proof {
            if has_pressed_key(self@.keys) {
                let kk = choose|kk: int| 0 <= kk < 16 && self@.keys[kk];
                assert(false);
            }
        }
        None
    }

    /// Blit the `height`-row sprite at the index register's address onto
    /// the display at column `vx`, row `vy`, and report whether any lit
    /// cell was flipped off.
    pub fn draw_sprite(&mut self, vx: u8, vy: u8, height: u8, memory: &Memory) -> (collision: bool)
        requires
            old(self).wf(),
            memory.wf(),
            height <= 15,
            old(self)@.index + height <= MEMORY_SIZE,
        ensures
            final(self).wf(),
            final(self)@ == (CpuV {
                display: blit_display(
                    old(self)@.display,
                    memory@,
                    old(self)@.index as int,
                    vx as int,
                    vy as int,
                    height as int,
                ),
                ..old(self)@
            }),
            collision == blit_collision(
                old(self)@.display,
                memory@,
                old(self)@.index as int,
                vx as int,
                vy as int,
                height as int,
            ),
    {
        let ghost m = memory@;
        let ghost i0 = self.i_register as int;
        let ghost d0 = self@.display;
        let ghost vxi = vx as int;
        let ghost vyi = vy as int;
        let x: usize = vx as usize;
        let y: usize = vy as usize;
        let mut collision: bool = false;
        let mut row: u8 = 0;
        proof {
            assert forall|r: int, c: int| 0 <= r < 32 && 0 <= c < 64 implies !flips_upto(
                m,
                i0,
                vxi,
                vyi,
                0,
                0,
                r,
                c,
            ) by {
                lemma_flips_upto_empty(m, i0, vxi, vyi, r, c);
            }
            lemma_collision_upto_empty(d0, m, i0, vxi, vyi);
        }
        while row < height
            invariant
                row <= height,
                height <= 15,
                memory.wf(),
                m == memory@,
                i0 == old(self)@.index as int,
                i0 + height <= MEMORY_SIZE,
                vxi == vx as int,
                vyi == vy as int,
                x == vx as int,
                y == vy as int,
                d0 == old(self)@.display,
                old(self).wf(),
                self@.regs == old(self)@.regs,
                self@.stack == old(self)@.stack,
                self@.pc == old(self)@.pc,
                self@.index == old(self)@.index,
                self@.keys == old(self)@.keys,
                self@.delay == old(self)@.delay,
                self@.sound == old(self)@.sound,
                display_wf(self@.display),
                forall|r: int, c: int|
                    0 <= r < 32 && 0 <= c < 64 ==> #[trigger] self@.display[cell_index(r, c)] == (
                    if flips_upto(m, i0, vxi, vyi, row as int, 0, r, c) {
                        flip_cell(d0[cell_index(r, c)])
                    } else {
                        d0[cell_index(r, c)]
                    }),
                collision == collision_upto(d0, m, i0, vxi, vyi, row as int, 0),
            decreases height - row,
        {
            let sprite: u8 = memory.read_byte(self.i_register as usize + row as usize);
            let mut bit: u8 = 0;
            while bit < 8
                invariant
                    bit <= 8,
                    row < height,
                    height <= 15,
                    memory.wf(),
                    m == memory@,
                    i0 == old(self)@.index as int,
                    i0 + height <= MEMORY_SIZE,
                    vxi == vx as int,
                    vyi == vy as int,
                    x == vx as int,
                    y == vy as int,
                    d0 == old(self)@.display,
                    old(self).wf(),
                    sprite == m[i0 + row as int],
                    self@.regs == old(self)@.regs,
                    self@.stack == old(self)@.stack,
                    self@.pc == old(self)@.pc,
                    self@.index == old(self)@.index,
                    self@.keys == old(self)@.keys,
                    self@.delay == old(self)@.delay,
                    self@.sound == old(self)@.sound,
                    display_wf(self@.display),
                    forall|r: int, c: int|
                        0 <= r < 32 && 0 <= c < 64 ==> #[trigger] self@.display[cell_index(r, c)]
                            == (if flips_upto(m, i0, vxi, vyi, row as int, bit as int, r, c) {
                            flip_cell(d0[cell_index(r, c)])
                        } else {
                            d0[cell_index(r, c)]
                        }),
                    collision == collision_upto(d0, m, i0, vxi, vyi, row as int, bit as int),
                decreases 8 - bit,
            {
                let ghost d_entry = self@.display;
                let ghost collision_entry = collision;
                let pixel: u8 = (sprite >> (7 - bit)) & 1;
                let dx: usize = (x + bit as usize) % 64;
                let dy: usize = (y + row as usize) % 32;
                let idx: usize = dy * 64 + dx;
                let ghost tr = dy as int;
                let ghost tc = dx as int;
                proof {
                    assert(tr == (vyi + row as int) % 32);
                    assert(tc == (vxi + bit as int) % 64);
                    assert(idx == cell_index(tr, tc));
                    assert((7 - bit as int) as u8 == 7 - bit);
                    assert(pixel == 1 <==> sprite_row_bit(sprite, bit as int));
                    if pixel == 1 {
                        assert(draw_hit(m, i0, vxi, vyi, row as int, bit as int, tr, tc));
                        lemma_no_earlier_hit_on_target(
                            m,
                            i0,
                            vxi,
                            vyi,
                            row as int,
                            bit as int,
                            tr,
                            tc,
                        );
                    }
                }
                if pixel == 1 {
                    let cur: u8 = self.display[idx];
                    proof {
                        assert(cur == d_entry[cell_index(tr, tc)]);
                        assert(cur == d0[cell_index(tr, tc)]);
                        assert(0u8 ^ 1 == 1u8 && 1u8 ^ 1 == 0u8) by (bit_vector);
                    }
                    if cur == 1 {
                        collision = true;
                    }
                    self.display.set(idx, cur ^ 1);
                }
                proof {
                    let rowi = row as int;
                    let biti = bit as int;
                    assert forall|r: int, c: int| 0 <= r < 32 && 0 <= c < 64 implies #[trigger] self@.display[cell_index(
                        r,
                        c,
                    )] == (if flips_upto(m, i0, vxi, vyi, rowi, biti + 1, r, c) {
                        flip_cell(d0[cell_index(r, c)])
                    } else {
                        d0[cell_index(r, c)]
                    }) by {
                        lemma_flips_upto_bit(m, i0, vxi, vyi, rowi, biti, r, c);
                        if r == tr && c == tc {
                        } else {
                            assert(cell_index(r, c) != cell_index(tr, tc));
                            if draw_hit(m, i0, vxi, vyi, rowi, biti, r, c) {
                                assert(r == tr && c == tc);
                            }
                        }
                    }
                    lemma_collision_upto_bit(d0, m, i0, vxi, vyi, rowi, biti);
                    assert(collision == collision_upto(d0, m, i0, vxi, vyi, rowi, biti + 1));
                    assert forall|j: int| 0 <= j < DISPLAY_CELLS implies #[trigger] self@.display[j]
                        == 0 || self@.display[j] == 1 by {
                        if pixel == 1 && j == idx {
                        } else {
                            assert(self@.display[j] == d_entry[j]);
                        }
                    }
                }
                bit = bit + 1;
            }
            proof {
                let rowi = row as int;
                assert forall|r: int, c: int| 0 <= r < 32 && 0 <= c < 64 implies (flips_upto(
                    m,
                    i0,
                    vxi,
                    vyi,
                    rowi,
                    8,
                    r,
                    c,
                ) <==> flips_upto(m, i0, vxi, vyi, rowi + 1, 0, r, c)) by {
                    lemma_flips_upto_row(m, i0, vxi, vyi, rowi, r, c);
                }
                lemma_collision_upto_row(d0, m, i0, vxi, vyi, rowi);
            }
            row = row + 1;
        }
        proof {
            let n = height as int;
            let blitted = blit_display(d0, m, i0, vxi, vyi, n);
            assert forall|j: int| 0 <= j < DISPLAY_CELLS implies self@.display[j] == blitted[j] by {
                lemma_fundamental_div_mod(j, 64);
                let r = j / 64;
                let c = j % 64;
                assert(0 <= c < 64);
                assert(0 <= r < 32);
                assert(cell_index(r, c) == j);
            }
            assert(self@.display =~= blitted);
            assert(self@ =~= (CpuV { display: blitted, ..old(self)@ }));
        }
        collision
    }

    /// The conditional skips: compare a register with an immediate or with
    /// another register, and advance the program counter by 4 when the
    /// condition holds, else by 2.
    #[verifier::rlimit(100)]
    fn exec_skips(&mut self, memory: &Memory, ins: Instruction, rnd: u8) -> (can_continue: bool)
        requires
            old(self).wf(),
            ins.wf(),
            old(self)@.pc + 1 < MEMORY_SIZE,
            (ins matches Instruction::SkipEqImm(_, _)) || (ins matches Instruction::SkipNeImm(_, _))
                || (ins matches Instruction::SkipEqReg(_, _)) || (ins matches
            Instruction::SkipNeReg(_, _)),
        ensures
            final(self).wf(),
            final(self)@ == execute_spec(old(self)@, memory@, ins, rnd).0,
            can_continue == execute_spec(old(self)@, memory@, ins, rnd).2,
    {
        match ins {
            Instruction::SkipEqImm(x, nn) => {
                let vx: u8 = self.registers[x as usize];
                self.pc = self.pc + (if vx == nn { 4 } else { 2 });
                true
            },
            Instruction::SkipNeImm(x, nn) => {
                let vx: u8 = self.registers[x as usize];
                self.pc = self.pc + (if vx != nn { 4 } else { 2 });
                true
            },
            Instruction::SkipEqReg(x, y) => {
                let vx: u8 = self.registers[x as usize];
                let vy: u8 = self.registers[y as usize];
                self.pc = self.pc + (if vx == vy { 4 } else { 2 });
                true
            },
            Instruction::SkipNeReg(x, y) => {
                let vx: u8 = self.registers[x as usize];
                let vy: u8 = self.registers[y as usize];
                self.pc = self.pc + (if vx != vy { 4 } else { 2 });
                true
            },
            _ => {
                proof {
                    assert(false);
                }
                true
            },
        }
    }

    /// The display clear and the subroutine return; a return with an empty
    /// call stack is a benign no-op that still advances the program
    /// counter.
    #[verifier::rlimit(100)]
    fn exec_clear_return(&mut self, memory: &Memory, ins: Instruction, rnd: u8) -> (can_continue: bool)
        requires
            old(self).wf(),
            ins.wf(),
            old(self)@.pc + 1 < MEMORY_SIZE,
            (ins matches Instruction::ClearDisplay) || (ins matches Instruction::Return),
        ensures
            final(self).wf(),
            final(self)@ == execute_spec(old(self)@, memory@, ins, rnd).0,
            can_continue == execute_spec(old(self)@, memory@, ins, rnd).2,
    {
        match ins {
            Instruction::ClearDisplay => {
                self.clear_display();
                self.pc = self.pc + 2;
                true
            },
            Instruction::Return => {
                if self.return_stack.len() == 0 {
                    self.pc = self.pc + 2;
                } else {
                    let addr = self.return_stack.pop();
                    match addr {
                        Some(a) => {
                            self.pc = a;
                            proof {
                                assert(self@.stack =~= old(self)@.stack.drop_last());
                            }
                        },
                        None => {
                            proof {
                                assert(false);
                            }
                        },
                    }
                }
                true
            },
            _ => {
                proof {
                    assert(false);
                }
                true
            },
        }
    }

    /// Jumps, the call and the benign no-op: the instructions that move
    /// control without testing anything.
    #[verifier::rlimit(100)]
    fn exec_control(&mut self, memory: &Memory, ins: Instruction, rnd: u8) -> (can_continue: bool)
        requires
            old(self).wf(),
            ins.wf(),
            old(self)@.pc + 1 < MEMORY_SIZE,
            (ins matches Instruction::Jump(_)) || (ins matches Instruction::Call(_)) || (ins
                matches Instruction::JumpOffset(_)) || (ins matches Instruction::Unknown),
        ensures
            final(self).wf(),
            final(self)@ == execute_spec(old(self)@, memory@, ins, rnd).0,
            can_continue == execute_spec(old(self)@, memory@, ins, rnd).2,
    {
        match ins {
            Instruction::Jump(nnn) => {
                self.pc = nnn;
                true
            },
            Instruction::Call(nnn) => {
                self.return_stack.push(self.pc + 2);
                self.pc = nnn;
                true
            },
            Instruction::JumpOffset(nnn) => {
                let v0: u8 = self.registers[0];
                self.pc = nnn + v0 as u16;
                true
            },
            Instruction::Unknown => {
                self.pc = self.pc + 2;
                true
            },
            _ => {
                proof {
                    assert(false);
                }
                true
            },
        }
    }

    /// The shifts: the flag register takes the bit shifted out, written
    /// before the shifted result, as the machine does.
    #[verifier::rlimit(100)]
    fn exec_alu_shifts(&mut self, memory: &Memory, ins: Instruction, rnd: u8) -> (can_continue: bool)
        requires
            old(self).wf(),
            ins.wf(),
            old(self)@.pc + 1 < MEMORY_SIZE,
            (ins matches Instruction::RegShr(_)) || (ins matches Instruction::RegShl(_)),
        ensures
            final(self).wf(),
            final(self)@ == execute_spec(old(self)@, memory@, ins, rnd).0,
            can_continue == execute_spec(old(self)@, memory@, ins, rnd).2,
    {
        match ins {
            Instruction::RegShr(x) => {
                let vx0: u8 = self.registers[x as usize];
                self.registers.set(15, vx0 & 1);
                let vx1: u8 = self.registers[x as usize];
                self.registers.set(x as usize, vx1 >> 1u8);
                self.pc = self.pc + 2;
                true
            },
            Instruction::RegShl(x) => {
                let vx0: u8 = self.registers[x as usize];
                self.registers.set(15, (vx0 & 0x80) >> 7u8);
                let vx1: u8 = self.registers[x as usize];
                let doubled: u8 = ((vx1 as u16 * 2) % 256) as u8;
                self.registers.set(x as usize, doubled);
                self.pc = self.pc + 2;
                true
            },
            _ => {
                proof {
                    assert(false);
                }
                true
            },
        }
    }

    /// The carried addition and the borrowed subtractions. Each writes the
    /// flag register first, then the result, as the machine does.
    #[verifier::rlimit(100)]
    fn exec_alu_flags(&mut self, memory: &Memory, ins: Instruction, rnd: u8) -> (can_continue: bool)
        requires
            old(self).wf(),
            ins.wf(),
            old(self)@.pc + 1 < MEMORY_SIZE,
            (ins matches Instruction::RegAdd(_, _)) || (ins matches Instruction::RegSub(_, _)) || (
            ins matches Instruction::RegSubRev(_, _)),
        ensures
            final(self).wf(),
            final(self)@ == execute_spec(old(self)@, memory@, ins, rnd).0,
            can_continue == execute_spec(old(self)@, memory@, ins, rnd).2,
    {
        match ins {
            Instruction::RegAdd(x, y) => {
                let vx0: u8 = self.registers[x as usize];
                let vy0: u8 = self.registers[y as usize];
                let carry: u8 = if vx0 as u16 + vy0 as u16 > 255 {
                    1
                } else {
                    0
                };
                self.registers.set(15, carry);
                let vx1: u8 = self.registers[x as usize];
                let vy1: u8 = self.registers[y as usize];
                let sum: u8 = ((vx1 as u16 + vy1 as u16) % 256) as u8;
                self.registers.set(x as usize, sum);
                self.pc = self.pc + 2;
                true
            },
            Instruction::RegSub(x, y) => {
                let vx0: u8 = self.registers[x as usize];
                let vy0: u8 = self.registers[y as usize];
                let no_borrow: u8 = if vx0 >= vy0 {
                    1
                } else {
                    0
                };
                self.registers.set(15, no_borrow);
                let vx1: u8 = self.registers[x as usize];
                let vy1: u8 = self.registers[y as usize];
                let diff: u8 = ((256 + vx1 as u16 - vy1 as u16) % 256) as u8;
                proof {
                    lemma_mod_add_multiples_vanish(vx1 as int - vy1 as int, 256);
                }
                self.registers.set(x as usize, diff);
                self.pc = self.pc + 2;
                true
            },
            Instruction::RegSubRev(x, y) => {
                let vx0: u8 = self.registers[x as usize];
                let vy0: u8 = self.registers[y as usize];
                let no_borrow: u8 = if vy0 >= vx0 {
                    1
                } else {
                    0
                };
                self.registers.set(15, no_borrow);
                let vx1: u8 = self.registers[x as usize];
                let vy1: u8 = self.registers[y as usize];
                let diff: u8 = ((256 + vy1 as u16 - vx1 as u16) % 256) as u8;
                proof {
                    lemma_mod_add_multiples_vanish(vy1 as int - vx1 as int, 256);
                }
                self.registers.set(x as usize, diff);
                self.pc = self.pc + 2;
                true
            },
            _ => {
                proof {
                    assert(false);
                }
                true
            },
        }
    }

    /// Register arithmetic, logic and immediate loads, and the masked
    /// random load, whose drawn byte is the argument `rnd`.
    #[verifier::rlimit(100)]
    fn exec_alu(&mut self, memory: &Memory, ins: Instruction, rnd: u8) -> (can_continue: bool)
        requires
            old(self).wf(),
            ins.wf(),
            old(self)@.pc + 1 < MEMORY_SIZE,
            (ins matches Instruction::LoadImm(_, _)) || (ins matches Instruction::AddImm(_, _)) || (
            ins matches Instruction::RegCopy(_, _)) || (ins matches Instruction::RegOr(_, _)) || (
            ins matches Instruction::RegAnd(_, _)) || (ins matches Instruction::RegXor(_, _)) || (
            ins matches Instruction::Random(_, _)),
        ensures
            final(self).wf(),
            final(self)@ == execute_spec(old(self)@, memory@, ins, rnd).0,
            can_continue == execute_spec(old(self)@, memory@, ins, rnd).2,
    {
        match ins {
            Instruction::LoadImm(x, nn) => {
                self.registers.set(x as usize, nn);
                self.pc = self.pc + 2;
                true
            },
            Instruction::AddImm(x, nn) => {
                let vx: u8 = self.registers[x as usize];
                let sum: u8 = ((vx as u16 + nn as u16) % 256) as u8;
                self.registers.set(x as usize, sum);
                self.pc = self.pc + 2;
                true
            },
            Instruction::RegCopy(x, y) => {
                let vy: u8 = self.registers[y as usize];
                self.registers.set(x as usize, vy);
                self.pc = self.pc + 2;
                true
            },
            Instruction::RegOr(x, y) => {
                let vx: u8 = self.registers[x as usize];
                let vy: u8 = self.registers[y as usize];
                self.registers.set(x as usize, vx | vy);
                self.pc = self.pc + 2;
                true
            },
            Instruction::RegAnd(x, y) => {
                let vx: u8 = self.registers[x as usize];
                let vy: u8 = self.registers[y as usize];
                self.registers.set(x as usize, vx & vy);
                self.pc = self.pc + 2;
                true
            },
            Instruction::RegXor(x, y) => {
                let vx: u8 = self.registers[x as usize];
                let vy: u8 = self.registers[y as usize];
                self.registers.set(x as usize, vx ^ vy);
                self.pc = self.pc + 2;
                true
            },
            Instruction::Random(x, nn) => {
                self.registers.set(x as usize, rnd & nn);
                self.pc = self.pc + 2;
                true
            },
            _ => {
                proof {
                    assert(false);
                }
                true
            },
        }
    }

    /// Key tests, the key wait, and the timer transfers.
    #[verifier::rlimit(100)]
    fn exec_keys_timers(&mut self, memory: &Memory, ins: Instruction, rnd: u8) -> (can_continue: bool)
        requires
            old(self).wf(),
            ins.wf(),
            old(self)@.pc + 1 < MEMORY_SIZE,
            (ins matches Instruction::SkipKeyPressed(_)) || (ins matches
            Instruction::SkipKeyNotPressed(_)) || (ins matches Instruction::ReadDelay(_)) || (ins
                matches Instruction::WaitKey(_)) || (ins matches Instruction::SetDelay(_)) || (ins
                matches Instruction::SetSound(_)),
        ensures
            final(self).wf(),
            final(self)@ == execute_spec(old(self)@, memory@, ins, rnd).0,
            can_continue == execute_spec(old(self)@, memory@, ins, rnd).2,
    {
        match ins {
            Instruction::SkipKeyPressed(x) => {
                let vx: u8 = self.registers[x as usize];
                let pressed: bool = self.keys[(vx % 16) as usize];
                self.pc = self.pc + (if pressed { 4 } else { 2 });
                true
            },
            Instruction::SkipKeyNotPressed(x) => {
                let vx: u8 = self.registers[x as usize];
                let pressed: bool = self.keys[(vx % 16) as usize];
                self.pc = self.pc + (if !pressed { 4 } else { 2 });
                true
            },
            Instruction::ReadDelay(x) => {
                let t: u8 = self.delay_timer;
                self.registers.set(x as usize, t);
                self.pc = self.pc + 2;
                true
            },
            Instruction::WaitKey(x) => {
                let lowest = self.lowest_pressed_key();
                match lowest {
                    Some(k) => {
                        self.registers.set(x as usize, k);
                        self.pc = self.pc + 2;
                    },
                    None => {},
                }
                true
            },
            Instruction::SetDelay(x) => {
                let vx: u8 = self.registers[x as usize];
                self.delay_timer = vx;
                self.pc = self.pc + 2;
                true
            },
            Instruction::SetSound(x) => {
                let vx: u8 = self.registers[x as usize];
                self.sound_timer = vx;
                self.pc = self.pc + 2;
                true
            },
            _ => {
                proof {
                    assert(false);
                }
                true
            },
        }
    }

    /// The index register, the sprite draw, and the block stores and loads
    /// through memory; the instructions that can raise a fatal addressing
    /// fault.
    #[verifier::rlimit(50)]
    fn exec_index_mem(&mut self, memory: &mut Memory, ins: Instruction, rnd: u8) -> (can_continue: bool)
        requires
            old(self).wf(),
            old(memory).wf(),
            ins.wf(),
            old(self)@.pc + 1 < MEMORY_SIZE,
            (ins matches Instruction::SetIndex(_)) || (ins matches Instruction::AddIndex(_)) || (ins
                matches Instruction::FontAddress(_)) || (ins matches Instruction::Draw(_, _, _)) || (
            ins matches Instruction::StoreBcd(_)) || (ins matches Instruction::StoreRegs(_)) || (ins
                matches Instruction::LoadRegs(_)),
        ensures
            final(self).wf(),
            final(memory).wf(),
            final(self)@ == execute_spec(old(self)@, old(memory)@, ins, rnd).0,
            final(memory)@ == execute_spec(old(self)@, old(memory)@, ins, rnd).1,
            can_continue == execute_spec(old(self)@, old(memory)@, ins, rnd).2,
    {
        match ins {
            Instruction::SetIndex(nnn) => {
                self.i_register = nnn;
                self.pc = self.pc + 2;
                true
            },
            Instruction::AddIndex(x) => {
                let vx: u8 = self.registers[x as usize];
                self.i_register = ((self.i_register as u32 + vx as u32) % 0x10000) as u16;
                self.pc = self.pc + 2;
                true
            },
            Instruction::FontAddress(x) => {
                let digit: u8 = self.registers[x as usize] & 0xF;
                proof {
                    let vx = old(self)@.regs[x as int];
                    assert((vx & 0xF) < 16) by (bit_vector);
                }
                self.i_register = digit as u16 * 5;
                self.pc = self.pc + 2;
                true
            },
            Instruction::Draw(x, y, n) => {
                if self.i_register as usize + n as usize > MEMORY_SIZE {
                    return false;
                }
                let vx: u8 = self.registers[x as usize];
                let vy: u8 = self.registers[y as usize];
                let collided = self.draw_sprite(vx, vy, n, memory);
                self.registers.set(
                    15,
                    if collided {
                        1
                    } else {
                        0
                    },
                );
                self.pc = self.pc + 2;
                true
            },
            Instruction::StoreBcd(x) => {
                if self.i_register as usize + 2 >= MEMORY_SIZE {
                    return false;
                }
                let base: usize = self.i_register as usize;
                let v: u8 = self.registers[x as usize];
                memory.write_byte(base, v / 100);
                memory.write_byte(base + 1, (v / 10) % 10);
                memory.write_byte(base + 2, v % 10);
                self.pc = self.pc + 2;
                true
            },
            Instruction::StoreRegs(x) => {
                if self.i_register as usize + x as usize >= MEMORY_SIZE {
                    return false;
                }
                let base: usize = self.i_register as usize;
                let last: usize = x as usize;
                let mut reg: usize = 0;
                while reg <= last
                    invariant
                        old(self).wf(),
                        old(memory).wf(),
                        reg <= last + 1,
                        last < 16,
                        base == old(self)@.index,
                        base + last < MEMORY_SIZE,
                        self@ == old(self)@,
                        memory@.len() == MEMORY_SIZE,
                        forall|j: int|
                            0 <= j < MEMORY_SIZE ==> #[trigger] memory@[j] == (if base <= j < base
                                + reg {
                                old(self)@.regs[j - base]
                            } else {
                                old(memory)@[j]
                            }),
                    decreases last + 1 - reg,
                {
                    let v: u8 = self.registers[reg];
                    memory.write_byte(base + reg, v);
                    reg = reg + 1;
                }
                self.pc = self.pc + 2;
                proof {
                    assert(memory@ =~= execute_spec(old(self)@, old(memory)@, ins, rnd).1);
                }
                true
            },
            Instruction::LoadRegs(x) => {
                if self.i_register as usize + x as usize >= MEMORY_SIZE {
                    return false;
                }
                let base: usize = self.i_register as usize;
                let last: usize = x as usize;
                let mut reg: usize = 0;
                while reg <= last
                    invariant
                        old(self).wf(),
                        old(memory).wf(),
                        reg <= last + 1,
                        last < 16,
                        base == old(self)@.index,
                        base + last < MEMORY_SIZE,
                        memory@ == old(memory)@,
                        self@.regs.len() == 16,
                        self@.stack == old(self)@.stack,
                        self@.pc == old(self)@.pc,
                        self@.index == old(self)@.index,
                        self@.display == old(self)@.display,
                        self@.keys == old(self)@.keys,
                        self@.delay == old(self)@.delay,
                        self@.sound == old(self)@.sound,
                        forall|j: int|
                            0 <= j < 16 ==> #[trigger] self@.regs[j] == (if 0 <= j < reg {
                                old(memory)@[base + j]
                            } else {
                                old(self)@.regs[j]
                            }),
                    decreases last + 1 - reg,
                {
                    let v: u8 = memory.read_byte(base + reg);
                    self.registers.set(reg, v);
                    reg = reg + 1;
                }
                self.pc = self.pc + 2;
                proof {
                    assert(self@.regs =~= execute_spec(old(self)@, old(memory)@, ins, rnd).0.regs);
                    assert(self@ =~= execute_spec(old(self)@, old(memory)@, ins, rnd).0);
                }
                true
            },
            _ => {
                proof {
                    assert(false);
                }
                true
            },
        }
    }

    /// Apply one decoded instruction, with `rnd` standing in for the byte
    /// the random-number instruction would draw. The program counter must
    /// address the instruction word just fetched. Returns false exactly on
    /// a fatal addressing fault, which leaves machine and memory untouched.
    pub fn execute(&mut self, memory: &mut Memory, ins: Instruction, rnd: u8) -> (can_continue: bool)
        requires
            old(self).wf(),
            old(memory).wf(),
            ins.wf(),
            old(self)@.pc + 1 < MEMORY_SIZE,
        ensures
            final(self).wf(),
            final(memory).wf(),
            final(self)@ == execute_spec(old(self)@, old(memory)@, ins, rnd).0,
            final(memory)@ == execute_spec(old(self)@, old(memory)@, ins, rnd).1,
            can_continue == execute_spec(old(self)@, old(memory)@, ins, rnd).2,
    {
        match ins {
            Instruction::ClearDisplay | Instruction::Return => self.exec_clear_return(
                memory,
                ins,
                rnd,
            ),
            Instruction::Jump(_) | Instruction::Call(_) | Instruction::JumpOffset(_)
                | Instruction::Unknown => self.exec_control(memory, ins, rnd),
            Instruction::SkipEqImm(_, _) | Instruction::SkipNeImm(_, _) | Instruction::SkipEqReg(
                _,
                _,
            ) | Instruction::SkipNeReg(_, _) => self.exec_skips(memory, ins, rnd),
            Instruction::LoadImm(_, _) | Instruction::AddImm(_, _) | Instruction::RegCopy(_, _)
                | Instruction::RegOr(_, _) | Instruction::RegAnd(_, _) | Instruction::RegXor(
                _,
                _,
            ) | Instruction::Random(_, _) => self.exec_alu(memory, ins, rnd),
            Instruction::RegAdd(_, _) | Instruction::RegSub(_, _) | Instruction::RegSubRev(
                _,
                _,
            ) => self.exec_alu_flags(memory, ins, rnd),
            Instruction::RegShr(_) | Instruction::RegShl(_) => self.exec_alu_shifts(
                memory,
                ins,
                rnd,
            ),
            Instruction::SkipKeyPressed(_) | Instruction::SkipKeyNotPressed(_)
                | Instruction::ReadDelay(_) | Instruction::WaitKey(_) | Instruction::SetDelay(_)
                | Instruction::SetSound(_) => self.exec_keys_timers(memory, ins, rnd),
            Instruction::SetIndex(_) | Instruction::AddIndex(_) | Instruction::FontAddress(_)
                | Instruction::Draw(_, _, _) | Instruction::StoreBcd(_) | Instruction::StoreRegs(
                _,
            ) | Instruction::LoadRegs(_) => self.exec_index_mem(memory, ins, rnd),
        }
    }
    /// One whole step with `rnd` standing in for the random byte: validate
    /// the program counter, fetch, decode, execute. Deterministic, so every
    /// instruction's effect can be exercised exactly.
    pub fn decode_and_execute_with(&mut self, memory: &mut Memory, rnd: u8) -> (can_continue: bool)
        requires
            old(self).wf(),
            old(memory).wf(),
        ensures
            final(self).wf(),
            final(memory).wf(),
            final(self)@ == step_spec(old(self)@, old(memory)@, rnd).0,
            final(memory)@ == step_spec(old(self)@, old(memory)@, rnd).1,
            can_continue == step_spec(old(self)@, old(memory)@, rnd).2,
    {
        if self.pc as usize + 1 >= MEMORY_SIZE {
            return false;
        }
        let opcode: u16 = memory.fetch_opcode(self.pc as usize);
        let ins = decode(opcode);
        self.execute(memory, ins, rnd)
    }

    /// Execute exactly one instruction and report whether execution may
    /// continue: false exactly on a fatal addressing fault. The byte the
    /// random-number instruction draws is existentially quantified, since
    /// nothing is promised of the generator.
    pub fn decode_and_execute(&mut self, memory: &mut Memory) -> (can_continue: bool)
        requires
            old(self).wf(),
            old(memory).wf(),
        ensures
            final(self).wf(),
            final(memory).wf(),
            exists|rnd: u8|
                final(self)@ == (#[trigger] step_spec(old(self)@, old(memory)@, rnd)).0
                    && final(memory)@ == step_spec(old(self)@, old(memory)@, rnd).1
                    && can_continue == step_spec(old(self)@, old(memory)@, rnd).2,
    {
        let rnd: u8 = random_byte();
        self.decode_and_execute_with(memory, rnd)
    }
}

/// Relies on rand::random: draws a byte from the thread-local generator.
/// Nothing is promised of its value.
#[verifier::external_body]
fn random_byte() -> u8 {
    rand::random()
}

} // verus!
