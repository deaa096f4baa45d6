pub mod framebuffer;
pub mod key_state;
pub mod registers;
pub mod stack;

use self::framebuffer::FrameBuffer;
use self::key_state::KeyState;
use self::registers::Registers;
use self::stack::Stack;
use crate::cpu::instruction::Instruction;
use vstd::prelude::*;

verus! {

/// Size of the addressable memory.
pub const FOUR_K: usize = 4 * 1024;

/// Where a program image is loaded; everything below is reserved.
pub const ROM_OFFSET: usize = 0x200;

/// All state the CPU mutates: the 4096-byte memory, the register file, the
/// call stack, the framebuffer and the key bitmask.
pub struct Memory {
    pub framebuffer: FrameBuffer,
    pub ram: Vec<u8>,
    pub registers: Registers,
    pub stack: Stack,
    pub key_state: KeyState,
}

/// The mathematical value of a whole `Memory`.
#[verifier::ext_equal]
pub struct MemView {
    pub fb: Seq<bool>,
    pub ram: Seq<u8>,
    pub regs: Seq<u8>,
    pub image: u16,
    pub stack: Seq<u16>,
    pub keys: u16,
}

impl View for Memory {
    type V = MemView;

    open spec fn view(&self) -> MemView {
        MemView {
            fb: self.framebuffer@,
            ram: self.ram@,
            regs: self.registers@,
            image: self.registers.image,
            stack: self.stack@,
            keys: self.key_state.0,
        }
    }
}

impl Memory {
    /// Memory is full-sized, the register file holds its sixteen slots, the
    /// stack is within capacity and holds only addresses within memory - a
    /// return address is a program counter, and the program counter stays
    /// within memory bounds - and the framebuffer holds its whole grid.
    pub open spec fn wf(self) -> bool {
        &&& self.ram@.len() == FOUR_K
        &&& self.registers.wf()
        &&& self.stack.wf()
        &&& forall|k: int| 0 <= k < self.stack@.len() ==> self.stack@[k] < FOUR_K
        &&& self.framebuffer.wf()
    }

    /// Everything zeroed: blank memory, cleared registers, empty stack,
    /// dark framebuffer, no key held.
    pub fn new() -> (r: Self)
        ensures
            r.wf(),
            forall|i: int| 0 <= i < FOUR_K ==> r@.ram[i] == 0u8,
            forall|i: int| 0 <= i < 16 ==> r@.regs[i] == 0u8,
            r@.image == 0,
            r@.stack == Seq::<u16>::empty(),
            forall|i: int| 0 <= i < 2048 ==> !r@.fb[i],
            r@.keys == 0,
    {
        let mut ram: Vec<u8> = Vec::new();
        let mut i: usize = 0;
        while i < FOUR_K
            invariant
                i <= FOUR_K,
                ram@.len() == i,
                forall|j: int| 0 <= j < i ==> ram@[j] == 0u8,
            decreases FOUR_K - i,
        {
            ram.push(0);
            i += 1;
        }
        Memory {
            framebuffer: FrameBuffer::new(),
            ram,
            registers: Registers::new(),
            stack: Stack::new(),
            key_state: KeyState(0),
        }
    }

    /// Copies a program image verbatim into memory at the load offset: no
    /// header, no relocation.  Reports `false`, changing nothing, when the
    /// image does not fit.
    pub fn load_rom(&mut self, rom: &[u8]) -> (r: bool)
        requires
            old(self).wf(),
        ensures
            final(self).wf(),
            r == (rom@.len() <= FOUR_K - ROM_OFFSET),
            r ==> final(self)@ == (MemView {
                ram: old(self)@.ram.subrange(0, ROM_OFFSET as int) + rom@ + old(self)@.ram.subrange(
                    ROM_OFFSET + rom@.len(),
                    FOUR_K as int,
                ),
                ..old(self)@
            }),
            !r ==> final(self)@ == old(self)@,
    {
        if rom.len() > FOUR_K - ROM_OFFSET {
            return false;
        }
        let mut i: usize = 0;
        while i < rom.len()
            invariant
                i <= rom@.len(),
                rom@.len() <= FOUR_K - ROM_OFFSET,
                self.ram@.len() == FOUR_K,
                self.framebuffer == old(self).framebuffer,
                self.registers == old(self).registers,
                self.stack == old(self).stack,
                self.key_state == old(self).key_state,
                forall|j: int| 0 <= j < ROM_OFFSET ==> self.ram@[j] == old(self)@.ram[j],
                forall|j: int| 0 <= j < i ==> self.ram@[ROM_OFFSET + j] == rom@[j],
                forall|j: int|
                    ROM_OFFSET + i <= j < FOUR_K ==> self.ram@[j] == old(self)@.ram[j],
            decreases rom@.len() - i,
        {
            self.ram.set(ROM_OFFSET + i, rom[i]);
            i += 1;
        }
        proof {
            assert(self.ram@ =~= old(self)@.ram.subrange(0, ROM_OFFSET as int) + rom@ + old(
                self,
            )@.ram.subrange(ROM_OFFSET + rom@.len(), FOUR_K as int));
            assert(self@ =~= (MemView {
                ram: old(self)@.ram.subrange(0, ROM_OFFSET as int) + rom@ + old(
                    self,
                )@.ram.subrange(ROM_OFFSET + rom@.len(), FOUR_K as int),
                ..old(self)@
            }));
        }
        true
    }

    /// The word a fetch at `pc` reads: the byte at `pc`, then the byte
    /// below it, big-endian.
    pub open spec fn fetch_spec(m: MemView, pc: u16) -> u16 {
        (m.ram[pc as int] * 256 + m.ram[pc as int + 1]) as u16
    }

    /// Reads the two instruction bytes at the program counter.
    pub fn fetch(&self, pc: u16) -> (r: Instruction<crate::cpu::instruction::Four>)
        requires
            self.wf(),
            pc as int + 1 < FOUR_K,
        ensures
            r@ == Memory::fetch_spec(self@, pc),
    {
        let pc = pc as usize;
        Instruction::from_bytes([self.ram[pc], self.ram[pc + 1]])
    }
}

} // verus!
