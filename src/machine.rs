use vstd::prelude::*;
use crate::cpu::{fault, step, CpuState, ExecError, CPU};
use crate::instruction::decode_spec;
use crate::memory::{rom_image, Memory, MEMORY_SIZE, MEMORY_START_OFFSET};

verus! {

/// A whole machine: memory and the processor that runs from it.
pub struct Chip8 {
    pub memory: Memory,
    pub cpu: CPU,
}

/// The processor state once the word at the program counter has been fetched.
pub open spec fn fetched(s: CpuState) -> CpuState {
    CpuState { pc: (s.pc + 2) as u16, ..s }
}

impl Chip8 {
    /// A machine with `rom` loaded at `MEMORY_START_OFFSET` and the program
    /// counter there.
    pub fn from_rom(rom: &[u8]) -> (r: Self)
        requires
            rom@.len() <= MEMORY_SIZE - MEMORY_START_OFFSET,
        ensures
            r.memory@ == rom_image(rom@),
            r.cpu@ == crate::cpu::initial_state(MEMORY_START_OFFSET as u16),
    {
        Chip8 { memory: Memory::from_rom(rom), cpu: CPU::from_pc(MEMORY_START_OFFSET as u16) }
    }

    /// One machine cycle: fetch the word at the program counter, decode it and
    /// execute it. A program counter whose word runs past memory is
    /// `AddressOutOfRange`, with nothing changed; an instruction that cannot
    /// run leaves the program counter past its word and the rest unchanged.
    pub fn cycle(&mut self) -> (r: Result<(), ExecError>)
        ensures
            ({
                let s = old(self).cpu@;
                let m = old(self).memory@;
                if s.pc + 1 >= MEMORY_SIZE {
                    r == Err::<(), ExecError>(ExecError::AddressOutOfRange) && final(self).cpu@ == s
                        && final(self).memory@ == m
                } else {
                    let ins = decode_spec(m[s.pc as int], m[s.pc + 1]);
                    match fault(fetched(s), ins) {
                        Some(e) => r == Err::<(), ExecError>(e) && final(self).cpu@ == fetched(s)
                            && final(self).memory@ == m,
                        None => r is Ok && exists|b: u8|
                            (final(self).cpu@, final(self).memory@) == #[trigger] step(fetched(s), m, ins, b),
                    }
                }
            }),
    {
        if self.cpu.pc() as usize + 1 >= MEMORY_SIZE {
            return Err(ExecError::AddressOutOfRange);
        }
        let (high, low) = self.cpu.fetch(&self.memory);
        let instruction = self.cpu.decode(high, low);
        self.cpu.execute(&mut self.memory, &instruction)
    }
}

} // verus!
