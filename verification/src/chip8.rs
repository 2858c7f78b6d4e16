//! The whole machine: one `Cpu` driving one `Memory`. The outer loop loads
//! a program and then calls `decode_and_execute` once per instruction.

use vstd::prelude::*;
use crate::cpu::{Cpu, CpuV, PROGRAM_START, initial_cpu, step_spec};
use crate::memory::{MEMORY_SIZE, Memory, initial_memory, loaded};

verus! {

/// The machine state as mathematics: the interpreter's model beside the
/// memory contents.
#[verifier::ext_equal]
pub ghost struct Chip8V {
    /// The interpreter's state.
    pub cpu: CpuV,
    /// The memory contents.
    pub mem: Seq<u8>,
}

pub struct Chip8 {
    memory: Memory,
    cpu: Cpu,
}

impl View for Chip8 {
    type V = Chip8V;

    closed spec fn view(&self) -> Chip8V {
        Chip8V { cpu: self.cpu@, mem: self.memory@ }
    }
}

impl Chip8 {
    /// Both halves are well-formed.
    pub open spec fn wf(&self) -> bool {
        self@.cpu.wf() && self@.mem.len() == MEMORY_SIZE
    }

    pub fn new() -> (machine: Chip8)
        ensures
            machine.wf(),
            machine@.cpu == initial_cpu(),
            machine@.mem == initial_memory(),
    {
        Chip8 { memory: Memory::new(), cpu: Cpu::new() }
    }

    /// Copy a program into memory at the program area, leaving the
    /// interpreter's state alone.
    pub fn load_program(&mut self, program: &Vec<u8>)
        requires
            old(self).wf(),
            PROGRAM_START + program@.len() <= MEMORY_SIZE,
        ensures
            final(self).wf(),
            final(self)@.mem == loaded(old(self)@.mem, program@, PROGRAM_START as int),
            final(self)@.cpu == old(self)@.cpu,
    {
        self.memory.load_program(program.as_slice(), PROGRAM_START as usize);
    }

    /// Execute exactly one instruction and report whether execution may
    /// continue: false exactly on a fatal addressing fault.
    pub fn decode_and_execute(&mut self) -> (can_continue: bool)
        requires
            old(self).wf(),
        ensures
            final(self).wf(),
            exists|rnd: u8|
                final(self)@.cpu == (#[trigger] step_spec(old(self)@.cpu, old(self)@.mem, rnd)).0
                    && final(self)@.mem == step_spec(old(self)@.cpu, old(self)@.mem, rnd).1
                    && can_continue == step_spec(old(self)@.cpu, old(self)@.mem, rnd).2,
    {
        self.cpu.decode_and_execute(&mut self.memory)
    }
}

} // verus!
