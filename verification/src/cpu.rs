pub mod instruction;
pub mod instruction_set;
pub mod timer;

use self::instruction::{
    lemma_three_fields, op_id, op_kk, op_n, op_nnn, op_x, op_y, t_kk, t_n, t_nnn, t_x, t_y,
    Instruction, Three,
};
use self::timer::{tick_report, ticked, Timers};
use crate::fault::Fault;
use crate::memory::framebuffer::{blank, draw_sprite, sprite_collides};
use crate::memory::key_state::{pressed_bit, Key};
use crate::memory::stack::STACK_CAPACITY;
use crate::memory::registers::Register;
use crate::memory::{MemView, Memory, FOUR_K};
use vstd::prelude::*;

verus! {

/// The orchestrator of one cycle: fetch, decode, dispatch, execute,
/// advance, timer tick.  It owns the program counter and the timer pair;
/// everything else it mutates lives in `Memory`.
pub struct Cpu {
    pub program_counter: u16,
    pub timers: Timers,
}

/// What one cycle asks of the host: start or stop the tone, and, for the
/// wait-for-key instruction, block for a key and hand it back together
/// with the carried instruction word.
pub struct CycleOutcome {
    /// The cycle set the sound timer to a non-zero value: start the tone.
    pub start_beep: bool,
    /// The tick brought the running sound timer to zero: stop the tone.
    pub stop_beep: bool,
    /// The cycle hit the wait-for-key instruction: block until a key is
    /// pressed, then pass this residue and the key to `wait_for_key`.
    pub waiting_for_key: Option<Instruction<Three>>,
}

/// The state one instruction acts on: the memory view, the program
/// counter, and the two timer counters.
#[verifier::ext_equal]
pub struct StepState {
    pub mem: MemView,
    pub pc: u16,
    pub delay: u8,
    pub sound: u8,
}

/// What dispatching one instruction does: a next state - marked when it
/// is the wait-for-key instruction, whose register write is deferred until
/// the host reports a key - or a fatal fault.
pub enum StepOutcome {
    Next { s: StepState, waiting: bool },
    Fail { f: Fault },
}

/// A plain next state.
pub open spec fn next(s: StepState) -> StepOutcome {
    StepOutcome::Next { s, waiting: false }
}

/// A fatal fault.
pub open spec fn fail(f: Fault) -> StepOutcome {
    StepOutcome::Fail { f }
}

/// The 8-bit sum, wrapped.
pub open spec fn wrap_add(a: u8, b: u8) -> u8 {
    if a + b > 255 {
        (a + b - 256) as u8
    } else {
        (a + b) as u8
    }
}

/// The carry flag of an 8-bit addition: one exactly when the sum wrapped.
pub open spec fn carry_flag(a: u8, b: u8) -> u8 {
    if a + b > 255 {
        1u8
    } else {
        0u8
    }
}

/// The 8-bit difference, wrapped.
pub open spec fn wrap_sub(a: u8, b: u8) -> u8 {
    if a >= b {
        (a - b) as u8
    } else {
        (a - b + 256) as u8
    }
}

/// The flag of an 8-bit subtraction: one exactly when no borrow was
/// needed.
pub open spec fn no_borrow_flag(a: u8, b: u8) -> u8 {
    if a >= b {
        1u8
    } else {
        0u8
    }
}

/// A program counter after a conditional skip: two further when the
/// condition holds.
pub open spec fn skipped(pc: u16, cond: bool) -> u16 {
    if cond {
        (pc + 2) as u16
    } else {
        pc
    }
}

/// What the system family (leading nibble zero) does, by its low byte:
/// clear the framebuffer, return from a call, or - for any other system
/// call - nothing.
pub open spec fn zero_result(kk: u16, pre: StepState) -> StepOutcome {
    let m = pre.mem;
    if kk == 0xE0 {
        next(StepState { mem: MemView { fb: blank(), ..m }, ..pre })
    } else if kk == 0xEE {
        if m.stack.len() > 0 {
            next(
                StepState {
                    mem: MemView { stack: m.stack.drop_last(), ..m },
                    pc: m.stack.last(),
                    ..pre
                },
            )
        } else {
            fail(Fault::StackUnderflow)
        }
    } else {
        next(pre)
    }
}

/// What the arithmetic family (leading nibble eight) leaves in the
/// register file, by its low nibble; nothing for an unknown pattern.
pub open spec fn alu_result(sub: u16, x: int, y: int, regs: Seq<u8>) -> Option<Seq<u8>> {
    let vx = regs[x];
    let vy = regs[y];
    if sub == 0x0 {
        Some(regs.update(x, vy))
    } else if sub == 0x1 {
        Some(regs.update(x, vx | vy))
    } else if sub == 0x2 {
        Some(regs.update(x, vx & vy))
    } else if sub == 0x3 {
        Some(regs.update(x, vx ^ vy))
    } else if sub == 0x4 {
        Some(regs.update(x, wrap_add(vx, vy)).update(15, carry_flag(vx, vy)))
    } else if sub == 0x5 {
        Some(regs.update(x, wrap_sub(vx, vy)).update(15, no_borrow_flag(vx, vy)))
    } else if sub == 0x6 {
        Some(regs.update(15, vx & 1).update(x, vx >> 1))
    } else if sub == 0x7 {
        Some(regs.update(x, wrap_sub(vy, vx)).update(15, no_borrow_flag(vy, vx)))
    } else if sub == 0xE {
        Some(regs.update(15, vx >> 7).update(x, (vx << 1) as u8))
    } else {
        None
    }
}

/// What the key-skip family (leading nibble 0xE) does, by its low byte:
/// skip on a pressed or unpressed key; a register value outside the
/// sixteen symbols, or an unknown pattern, is fatal.
pub open spec fn key_skip_result(kk: u16, x: int, pre: StepState) -> StepOutcome {
    let vx = pre.mem.regs[x];
    if kk == 0x9E || kk == 0xA1 {
        if vx < 16 {
            let held = pressed_bit(pre.mem.keys, vx as u16);
            next(StepState { pc: skipped(pre.pc, if kk == 0x9E { held } else { !held }), ..pre })
        } else {
            fail(Fault::InvalidKey)
        }
    } else {
        fail(Fault::IllegalInstruction)
    }
}

/// Memory after registers zero through `x` are stored at `i` onward.
pub open spec fn ram_after_store(ram: Seq<u8>, i: int, regs: Seq<u8>, x: int) -> Seq<u8> {
    Seq::new(ram.len(), |k: int| if i <= k <= i + x { regs[k - i] } else { ram[k] })
}

/// The register file after slots zero through `x` are loaded from `i`
/// onward.
pub open spec fn regs_after_load(regs: Seq<u8>, ram: Seq<u8>, i: int, x: int) -> Seq<u8> {
    Seq::new(regs.len(), |k: int| if 0 <= k <= x { ram[i + k] } else { regs[k] })
}

/// What the miscellaneous family (leading nibble 0xF) does, by its low
/// byte: timer reads and writes, the deferred key wait, address-register
/// arithmetic, the font-sprite address, binary-coded decimal, and register
/// block store and load.
pub open spec fn misc_result(kk: u16, x: int, pre: StepState) -> StepOutcome {
    let m = pre.mem;
    let vx = m.regs[x];
    let i = m.image as int;
    if kk == 0x07 {
        next(StepState { mem: MemView { regs: m.regs.update(x, pre.delay), ..m }, ..pre })
    } else if kk == 0x0A {
        StepOutcome::Next { s: pre, waiting: true }
    } else if kk == 0x15 {
        next(StepState { delay: vx, ..pre })
    } else if kk == 0x18 {
        next(StepState { sound: vx, ..pre })
    } else if kk == 0x1E {
        if i + vx < FOUR_K {
            next(StepState { mem: MemView { image: (i + vx) as u16, ..m }, ..pre })
        } else {
            fail(Fault::AddressOverflow((i + vx) as u32))
        }
    } else if kk == 0x29 {
        next(StepState { mem: MemView { image: (vx * 5) as u16, ..m }, ..pre })
    } else if kk == 0x33 {
        if i + 2 < FOUR_K {
            next(
                StepState {
                    mem: MemView {
                        ram: m.ram.update(i, (vx / 100) as u8).update(i + 1, ((vx / 10) % 10) as u8)
                            .update(i + 2, (vx % 10) as u8),
                        ..m
                    },
                    ..pre
                },
            )
        } else {
            fail(Fault::OutOfBounds((i + 2) as u32))
        }
    } else if kk == 0x55 {
        if i + x < FOUR_K {
            next(
                StepState {
                    mem: MemView {
                        ram: ram_after_store(m.ram, i, m.regs, x),
                        image: (i + x + 1) as u16,
                        ..m
                    },
                    ..pre
                },
            )
        } else {
            fail(Fault::OutOfBounds((i + x) as u32))
        }
    } else if kk == 0x65 {
        if i + x < FOUR_K {
            next(
                StepState {
                    mem: MemView {
                        regs: regs_after_load(m.regs, m.ram, i, x),
                        image: (i + x + 1) as u16,
                        ..m
                    },
                    ..pre
                },
            )
        } else {
            fail(Fault::OutOfBounds((i + x) as u32))
        }
    } else {
        fail(Fault::IllegalInstruction)
    }
}

/// Relies on rand::random for a uniformly distributed byte; nothing is
/// promised of the value.
#[verifier::external_body]
fn random_byte() -> u8 {
    rand::random::<u8>()
}

impl Cpu {
    /// The state an instruction at the current cycle acts on.
    pub open spec fn pre_state(self, m: MemView) -> StepState {
        StepState {
            mem: m,
            pc: self.program_counter,
            delay: self.timers.delay_timer,
            sound: self.timers.sound_timer,
        }
    }

    /// A fresh CPU: the program counter at the load offset, both timers
    /// zero, frames counted from the given clock reading.
    pub fn new(now_nanos: u128) -> (r: Self)
        ensures
            r.program_counter == 0x200,
            r.timers == (Timers { delay_timer: 0, sound_timer: 0, last_tick: now_nanos }),
    {
        Cpu { program_counter: 0x200, timers: Timers::new(now_nanos) }
    }

    /// The system family: clear the screen, return, or ignore a system
    /// call.  A return with an empty stack is fatal and changes nothing.
    pub fn zeroth(&mut self, inst: Instruction<Three>, memory: &mut Memory) -> (r: Result<
        (),
        Fault,
    >)
        requires
            old(memory).wf(),
        ensures
            final(memory).wf(),
            ({
                let pre = old(self).pre_state(old(memory)@);
                match zero_result(t_kk(inst@), pre) {
                    StepOutcome::Next { s, waiting } => r == Ok::<(), Fault>(()) && !waiting
                        && final(memory)@ == s.mem && final(self).program_counter == s.pc
                        && final(self).timers == old(self).timers,
                    StepOutcome::Fail { f } => r == Err::<(), Fault>(f)
                        && final(memory)@ == old(memory)@ && *final(self) == *old(self),
                }
            }),
    {
        proof {
            lemma_three_fields(inst@);
        }
        let (_, rest) = inst.one();
        let (kk, _) = rest.two();
        if kk == 0xE0 {
            memory.framebuffer.reset();
            proof {
                assert(memory.framebuffer@ =~= blank());
                assert(memory@ =~= (MemView { fb: blank(), ..old(memory)@ }));
            }
            Ok(())
        } else if kk == 0xEE {
            let addr = memory.stack.ret()?;
            self.program_counter = addr;
            proof {
                assert(memory@ =~= (MemView { stack: old(memory)@.stack.drop_last(), ..old(memory)@ }));
            }
            Ok(())
        } else {
            Ok(())
        }
    }

    /// Jump: the program counter is set to the address operand.
    pub fn jump(&mut self, inst: Instruction<Three>)
        ensures
            final(self).program_counter == t_nnn(inst@),
            final(self).timers == old(self).timers,
    {
        self.program_counter = inst.three().0;
    }

    /// Call: the current program counter is pushed and control moves to
    /// the address operand.  A call at full stack depth is fatal and
    /// changes nothing.
    pub fn call(&mut self, inst: Instruction<Three>, memory: &mut Memory) -> (r: Result<(), Fault>)
        requires
            old(memory).wf(),
            old(self).program_counter < FOUR_K,
        ensures
            final(memory).wf(),
            old(memory)@.stack.len() < STACK_CAPACITY ==> r == Ok::<(), Fault>(()) && final(memory)@ == (MemView {
                stack: old(memory)@.stack.push(old(self).program_counter),
                ..old(memory)@
            }) && final(self).program_counter == t_nnn(inst@)
                && final(self).timers == old(self).timers,
            old(memory)@.stack.len() >= STACK_CAPACITY ==> r == Err::<(), Fault>(
                Fault::StackOverflow,
            ) && final(memory)@ == old(memory)@ && *final(self) == *old(self),
    {
        let addr = inst.three().0;
        memory.stack.call(self.program_counter)?;
        self.program_counter = addr;
        Ok(())
    }

    /// Skip when the register equals the immediate byte.
    pub fn skip_if_equal(&mut self, inst: Instruction<Three>, memory: &Memory)
        requires
            memory.wf(),
            old(self).program_counter + 2 <= u16::MAX,
        ensures
            final(self).program_counter == skipped(
                old(self).program_counter,
                memory@.regs[t_x(inst@) as int] == t_kk(inst@),
            ),
            final(self).timers == old(self).timers,
    {
        proof {
            lemma_three_fields(inst@);
        }
        let (reg, rest) = inst.one();
        let (kk, _) = rest.two();
        if memory.registers.get(reg) == kk {
            self.program_counter += 2;
        }
    }

    /// Skip when the register differs from the immediate byte.
    pub fn skip_if_not_equal(&mut self, inst: Instruction<Three>, memory: &Memory)
        requires
            memory.wf(),
            old(self).program_counter + 2 <= u16::MAX,
        ensures
            final(self).program_counter == skipped(
                old(self).program_counter,
                memory@.regs[t_x(inst@) as int] != t_kk(inst@),
            ),
            final(self).timers == old(self).timers,
    {
        proof {
            lemma_three_fields(inst@);
        }
        let (reg, rest) = inst.one();
        let (kk, _) = rest.two();
        if memory.registers.get(reg) != kk {
            self.program_counter += 2;
        }
    }

    /// Skip when the two registers are equal.
    pub fn skip_if_equal_reg(&mut self, inst: Instruction<Three>, memory: &Memory)
        requires
            memory.wf(),
            old(self).program_counter + 2 <= u16::MAX,
        ensures
            final(self).program_counter == skipped(
                old(self).program_counter,
                memory@.regs[t_x(inst@) as int] == memory@.regs[t_y(inst@) as int],
            ),
            final(self).timers == old(self).timers,
    {
        proof {
            lemma_three_fields(inst@);
        }
        let (reg1, rest) = inst.one();
        let (reg2, _) = rest.one();
        if memory.registers.get(reg1) == memory.registers.get(reg2) {
            self.program_counter += 2;
        }
    }

    /// Skip when the two registers differ.
    pub fn skip_if_not_equal_reg(&mut self, inst: Instruction<Three>, memory: &Memory)
        requires
            memory.wf(),
            old(self).program_counter + 2 <= u16::MAX,
        ensures
            final(self).program_counter == skipped(
                old(self).program_counter,
                memory@.regs[t_x(inst@) as int] != memory@.regs[t_y(inst@) as int],
            ),
            final(self).timers == old(self).timers,
    {
        proof {
            lemma_three_fields(inst@);
        }
        let (reg1, rest) = inst.one();
        let (reg2, _) = rest.one();
        if memory.registers.get(reg1) != memory.registers.get(reg2) {
            self.program_counter += 2;
        }
    }

    /// Load the immediate byte into the register.
    pub fn set_reg(&mut self, inst: Instruction<Three>, memory: &mut Memory)
        requires
            old(memory).wf(),
        ensures
            final(memory).wf(),
            final(memory)@ == (MemView {
                regs: old(memory)@.regs.update(t_x(inst@) as int, (t_kk(inst@) as u8)),
                ..old(memory)@
            }),
            *final(self) == *old(self),
    {
        proof {
            lemma_three_fields(inst@);
        }
        let (reg, rest) = inst.one();
        let (kk, _) = rest.two();
        memory.registers.set(reg, kk);
    }

    /// Add the immediate byte into the register, wrapping, no flag update.
    pub fn add_reg(&mut self, inst: Instruction<Three>, memory: &mut Memory)
        requires
            old(memory).wf(),
        ensures
            final(memory).wf(),
            final(memory)@ == (MemView {
                regs: old(memory)@.regs.update(
                    t_x(inst@) as int,
                    wrap_add(old(memory)@.regs[t_x(inst@) as int], (t_kk(inst@) as u8)),
                ),
                ..old(memory)@
            }),
            *final(self) == *old(self),
    {
        proof {
            lemma_three_fields(inst@);
        }
        let (reg, rest) = inst.one();
        let (kk, _) = rest.two();
        let vx = memory.registers.get(reg);
        let sum: u16 = vx as u16 + kk as u16;
        let val: u8 = if sum > 255 {
            (sum - 256) as u8
        } else {
            sum as u8
        };
        memory.registers.set(reg, val);
    }

    /// Copy the second register into the first.
    pub fn set_reg_reg(&mut self, inst: Instruction<Three>, memory: &mut Memory)
        requires
            old(memory).wf(),
        ensures
            final(memory).wf(),
            final(memory)@ == (MemView {
                regs: old(memory)@.regs.update(
                    t_x(inst@) as int,
                    old(memory)@.regs[t_y(inst@) as int],
                ),
                ..old(memory)@
            }),
            *final(self) == *old(self),
    {
        proof {
            lemma_three_fields(inst@);
        }
        let (reg1, rest) = inst.one();
        let (reg2, _) = rest.one();
        let vy = memory.registers.get(reg2);
        memory.registers.set(reg1, vy);
    }

    /// Bitwise or of the two registers, into the first.
    pub fn or_reg_reg(&mut self, inst: Instruction<Three>, memory: &mut Memory)
        requires
            old(memory).wf(),
        ensures
            final(memory).wf(),
            final(memory)@ == (MemView {
                regs: old(memory)@.regs.update(
                    t_x(inst@) as int,
                    old(memory)@.regs[t_x(inst@) as int] | old(memory)@.regs[t_y(inst@) as int],
                ),
                ..old(memory)@
            }),
            *final(self) == *old(self),
    {
        proof {
            lemma_three_fields(inst@);
        }
        let (reg1, rest) = inst.one();
        let (reg2, _) = rest.one();
        let v = memory.registers.get(reg1) | memory.registers.get(reg2);
        memory.registers.set(reg1, v);
    }

    /// Bitwise and of the two registers, into the first.
    pub fn and_reg_reg(&mut self, inst: Instruction<Three>, memory: &mut Memory)
        requires
            old(memory).wf(),
        ensures
            final(memory).wf(),
            final(memory)@ == (MemView {
                regs: old(memory)@.regs.update(
                    t_x(inst@) as int,
                    old(memory)@.regs[t_x(inst@) as int] & old(memory)@.regs[t_y(inst@) as int],
                ),
                ..old(memory)@
            }),
            *final(self) == *old(self),
    {
        proof {
            lemma_three_fields(inst@);
        }
        let (reg1, rest) = inst.one();
        let (reg2, _) = rest.one();
        let v = memory.registers.get(reg1) & memory.registers.get(reg2);
        memory.registers.set(reg1, v);
    }

    /// Bitwise exclusive or of the two registers, into the first.
    pub fn xor_reg_reg(&mut self, inst: Instruction<Three>, memory: &mut Memory)
        requires
            old(memory).wf(),
        ensures
            final(memory).wf(),
            final(memory)@ == (MemView {
                regs: old(memory)@.regs.update(
                    t_x(inst@) as int,
                    old(memory)@.regs[t_x(inst@) as int] ^ old(memory)@.regs[t_y(inst@) as int],
                ),
                ..old(memory)@
            }),
            *final(self) == *old(self),
    {
        proof {
            lemma_three_fields(inst@);
        }
        let (reg1, rest) = inst.one();
        let (reg2, _) = rest.one();
        let v = memory.registers.get(reg1) ^ memory.registers.get(reg2);
        memory.registers.set(reg1, v);
    }

    /// Overflow-checked addition of the two registers: the wrapped sum
    /// into the first, the carry into the flag register.
    pub fn add_reg_reg(&mut self, inst: Instruction<Three>, memory: &mut Memory)
        requires
            old(memory).wf(),
        ensures
            final(memory).wf(),
            ({
                let vx = old(memory)@.regs[t_x(inst@) as int];
                let vy = old(memory)@.regs[t_y(inst@) as int];
                final(memory)@ == (MemView {
                    regs: old(memory)@.regs.update(t_x(inst@) as int, wrap_add(vx, vy)).update(
                        15,
                        carry_flag(vx, vy),
                    ),
                    ..old(memory)@
                })
            }),
            *final(self) == *old(self),
    {
        proof {
            lemma_three_fields(inst@);
        }
        let (reg1, rest) = inst.one();
        let (reg2, _) = rest.one();
        let vx = memory.registers.get(reg1);
        let vy = memory.registers.get(reg2);
        let sum: u16 = vx as u16 + vy as u16;
        let val: u8 = if sum > 255 {
            (sum - 256) as u8
        } else {
            sum as u8
        };
        let flag: u8 = if sum > 255 {
            1
        } else {
            0
        };
        memory.registers.set(reg1, val);
        memory.registers.set(Register::VF.index(), flag);
    }

    /// Subtraction of the second register from the first: the wrapped
    /// difference into the first, one into the flag register exactly when
    /// no borrow was needed.
    pub fn sub_reg_reg(&mut self, inst: Instruction<Three>, memory: &mut Memory)
        requires
            old(memory).wf(),
        ensures
            final(memory).wf(),
            ({
                let vx = old(memory)@.regs[t_x(inst@) as int];
                let vy = old(memory)@.regs[t_y(inst@) as int];
                final(memory)@ == (MemView {
                    regs: old(memory)@.regs.update(t_x(inst@) as int, wrap_sub(vx, vy)).update(
                        15,
                        no_borrow_flag(vx, vy),
                    ),
                    ..old(memory)@
                })
            }),
            *final(self) == *old(self),
    {
        proof {
            lemma_three_fields(inst@);
        }
        let (reg1, rest) = inst.one();
        let (reg2, _) = rest.one();
        let vx = memory.registers.get(reg1);
        let vy = memory.registers.get(reg2);
        let val: u8 = if vx >= vy {
            vx - vy
        } else {
            ((vx as u16 + 256) - vy as u16) as u8
        };
        let flag: u8 = if vx >= vy {
            1
        } else {
            0
        };
        memory.registers.set(reg1, val);
        memory.registers.set(Register::VF.index(), flag);
    }

    /// Shift the register right by one: the bit shifted out goes to the
    /// flag register first.
    pub fn shr_reg_reg(&mut self, inst: Instruction<Three>, memory: &mut Memory)
        requires
            old(memory).wf(),
        ensures
            final(memory).wf(),
            ({
                let vx = old(memory)@.regs[t_x(inst@) as int];
                final(memory)@ == (MemView {
                    regs: old(memory)@.regs.update(15, vx & 1).update(t_x(inst@) as int, vx >> 1),
                    ..old(memory)@
                })
            }),
            *final(self) == *old(self),
    {
        let (reg1, _) = inst.one();
        let vx = memory.registers.get(reg1);
        memory.registers.set(Register::VF.index(), vx & 1);
        memory.registers.set(reg1, vx >> 1);
    }

    /// Subtraction of the first register from the second: the wrapped
    /// difference into the first, one into the flag register exactly when
    /// no borrow was needed.
    pub fn subn_reg_reg(&mut self, inst: Instruction<Three>, memory: &mut Memory)
        requires
            old(memory).wf(),
        ensures
            final(memory).wf(),
            ({
                let vx = old(memory)@.regs[t_x(inst@) as int];
                let vy = old(memory)@.regs[t_y(inst@) as int];
                final(memory)@ == (MemView {
                    regs: old(memory)@.regs.update(t_x(inst@) as int, wrap_sub(vy, vx)).update(
                        15,
                        no_borrow_flag(vy, vx),
                    ),
                    ..old(memory)@
                })
            }),
            *final(self) == *old(self),
    {
        proof {
            lemma_three_fields(inst@);
        }
        let (reg1, rest) = inst.one();
        let (reg2, _) = rest.one();
        let vx = memory.registers.get(reg1);
        let vy = memory.registers.get(reg2);
        let val: u8 = if vy >= vx {
            vy - vx
        } else {
            ((vy as u16 + 256) - vx as u16) as u8
        };
        let flag: u8 = if vy >= vx {
            1
        } else {
            0
        };
        memory.registers.set(reg1, val);
        memory.registers.set(Register::VF.index(), flag);
    }

    /// Shift the register left by one: the bit shifted out goes to the
    /// flag register first.
    pub fn shl_reg_reg(&mut self, inst: Instruction<Three>, memory: &mut Memory)
        requires
            old(memory).wf(),
        ensures
            final(memory).wf(),
            ({
                let vx = old(memory)@.regs[t_x(inst@) as int];
                final(memory)@ == (MemView {
                    regs: old(memory)@.regs.update(15, vx >> 7).update(
                        t_x(inst@) as int,
                        (vx << 1) as u8,
                    ),
                    ..old(memory)@
                })
            }),
            *final(self) == *old(self),
    {
        let (reg1, _) = inst.one();
        let vx = memory.registers.get(reg1);
        memory.registers.set(Register::VF.index(), vx >> 7);
        memory.registers.set(reg1, vx << 1);
    }

    /// Load the address operand into the address register.
    pub fn set_i(&mut self, inst: Instruction<Three>, memory: &mut Memory)
        requires
            old(memory).wf(),
        ensures
            final(memory).wf(),
            final(memory)@ == (MemView { image: t_nnn(inst@), ..old(memory)@ }),
            *final(self) == *old(self),
    {
        let (val, _) = inst.three();
        memory.registers.image = val;
    }

    /// Jump to the address operand plus the zeroth register.
    pub fn jump_reg(&mut self, inst: Instruction<Three>, memory: &Memory)
        requires
            memory.wf(),
        ensures
            final(self).program_counter == memory@.regs[0] + t_nnn(inst@),
            final(self).timers == old(self).timers,
    {
        let (val, _) = inst.three();
        self.program_counter = memory.registers.get(Register::V0.index()) as u16 + val;
    }

    /// Load a random byte, masked by the immediate byte, into the
    /// register.  Only the mask is promised: the byte comes from the
    /// host's entropy.
    pub fn rand(&mut self, inst: Instruction<Three>, memory: &mut Memory)
        requires
            old(memory).wf(),
        ensures
            final(memory).wf(),
            exists|b: u8|
                #![trigger (b & (t_kk(inst@) as u8))]
                final(memory)@ == (MemView {
                    regs: old(memory)@.regs.update(t_x(inst@) as int, b & (t_kk(inst@) as u8)),
                    ..old(memory)@
                }),
            *final(self) == *old(self),
    {
        proof {
            lemma_three_fields(inst@);
        }
        let (reg, rest) = inst.one();
        let (kk, _) = rest.two();
        let b = random_byte();
        memory.registers.set(reg, b & kk);
        proof {
            assert(memory@ == (MemView {
                regs: old(memory)@.regs.update(t_x(inst@) as int, b & (t_kk(inst@) as u8)),
                ..old(memory)@
            }));
        }
    }

    /// Copy the delay timer into the register.
    pub fn get_delay_timer(&mut self, inst: Instruction<Three>, memory: &mut Memory)
        requires
            old(memory).wf(),
        ensures
            final(memory).wf(),
            final(memory)@ == (MemView {
                regs: old(memory)@.regs.update(t_x(inst@) as int, old(self).timers.delay_timer),
                ..old(memory)@
            }),
            *final(self) == *old(self),
    {
        let (reg, _) = inst.one();
        let v = self.timers.delay();
        memory.registers.set(reg, v);
    }

    /// Store the key the host reported into the register.  The blocking
    /// itself is the host's: the cycle that hit the wait-for-key
    /// instruction handed out the instruction word, the host waited, and
    /// this call completes the instruction.
    pub fn wait_for_key(&mut self, inst: Instruction<Three>, memory: &mut Memory, key: u8)
        requires
            old(memory).wf(),
            key < 16,
        ensures
            final(memory).wf(),
            final(memory)@ == (MemView {
                regs: old(memory)@.regs.update(t_x(inst@) as int, key),
                ..old(memory)@
            }),
            *final(self) == *old(self),
    {
        let (reg, _) = inst.one();
        memory.registers.set(reg, key);
    }

    /// Copy the register into the delay timer.
    pub fn set_delay_timer(&mut self, inst: Instruction<Three>, memory: &mut Memory)
        requires
            old(memory).wf(),
        ensures
            final(memory).wf(),
            final(memory)@ == old(memory)@,
            final(self).program_counter == old(self).program_counter,
            final(self).timers == (Timers {
                delay_timer: old(memory)@.regs[t_x(inst@) as int],
                ..old(self).timers
            }),
    {
        let (reg, _) = inst.one();
        let v = memory.registers.get(reg);
        self.timers.set_delay_timer(v);
    }

    /// Copy the register into the sound timer.
    pub fn set_sound_timer(&mut self, inst: Instruction<Three>, memory: &mut Memory)
        requires
            old(memory).wf(),
        ensures
            final(memory).wf(),
            final(memory)@ == old(memory)@,
            final(self).program_counter == old(self).program_counter,
            final(self).timers == (Timers {
                sound_timer: old(memory)@.regs[t_x(inst@) as int],
                ..old(self).timers
            }),
    {
        let (reg, _) = inst.one();
        let v = memory.registers.get(reg);
        self.timers.set_sound_timer(v);
    }

    /// Add the register into the address register.  Pushing it beyond
    /// addressable memory is fatal - a malformed program - and changes
    /// nothing; the fault carries the offending address.
    pub fn add_to_i(&mut self, inst: Instruction<Three>, memory: &mut Memory) -> (r: Result<
        (),
        Fault,
    >)
        requires
            old(memory).wf(),
        ensures
            final(memory).wf(),
            *final(self) == *old(self),
            ({
                let sum = old(memory)@.image + old(memory)@.regs[t_x(inst@) as int];
                if sum < FOUR_K {
                    r == Ok::<(), Fault>(()) && final(memory)@ == (MemView {
                        image: sum as u16,
                        ..old(memory)@
                    })
                } else {
                    r == Err::<(), Fault>(Fault::AddressOverflow(sum as u32)) && final(memory)@
                        == old(memory)@
                }
            }),
    {
        let (reg, _) = inst.one();
        let vx = memory.registers.get(reg);
        let sum: u32 = memory.registers.image as u32 + vx as u32;
        if sum >= FOUR_K as u32 {
            return Err(Fault::AddressOverflow(sum));
        }
        memory.registers.image = sum as u16;
        Ok(())
    }

    /// Point the address register at the built-in font sprite for the
    /// register's value: five bytes per symbol.
    pub fn set_i_to_sprite(&mut self, inst: Instruction<Three>, memory: &mut Memory)
        requires
            old(memory).wf(),
        ensures
            final(memory).wf(),
            final(memory)@ == (MemView {
                image: (old(memory)@.regs[t_x(inst@) as int] * 5) as u16,
                ..old(memory)@
            }),
            *final(self) == *old(self),
    {
        let (reg, _) = inst.one();
        let vx = memory.registers.get(reg);
        memory.registers.image = vx as u16 * 5;
    }

    /// Store the decimal digits of the register at the address register:
    /// hundreds, tens, ones.  Reaching past the end of memory is fatal and
    /// changes nothing.
    pub fn store_bcd(&mut self, inst: Instruction<Three>, memory: &mut Memory) -> (r: Result<
        (),
        Fault,
    >)
        requires
            old(memory).wf(),
        ensures
            final(memory).wf(),
            *final(self) == *old(self),
            ({
                let i = old(memory)@.image as int;
                let vx = old(memory)@.regs[t_x(inst@) as int];
                if i + 2 < FOUR_K {
                    r == Ok::<(), Fault>(()) && final(memory)@ == (MemView {
                        ram: old(memory)@.ram.update(i, (vx / 100) as u8).update(
                            i + 1,
                            ((vx / 10) % 10) as u8,
                        ).update(i + 2, (vx % 10) as u8),
                        ..old(memory)@
                    })
                } else {
                    r == Err::<(), Fault>(Fault::OutOfBounds((i + 2) as u32)) && final(memory)@
                        == old(memory)@
                }
            }),
    {
        let (reg, _) = inst.one();
        let vx = memory.registers.get(reg);
        let i = memory.registers.image as usize;
        if i + 2 >= FOUR_K {
            return Err(Fault::OutOfBounds((i + 2) as u32));
        }
        memory.ram.set(i, vx / 100);
        memory.ram.set(i + 1, (vx / 10) % 10);
        memory.ram.set(i + 2, vx % 10);
        Ok(())
    }

    /// Store registers zero through the index field at the address
    /// register onward; the address register moves past the block.
    /// Reaching past the end of memory is fatal and changes nothing.
    pub fn store_registers(&mut self, inst: Instruction<Three>, memory: &mut Memory) -> (r: Result<
        (),
        Fault,
    >)
        requires
            old(memory).wf(),
        ensures
            final(memory).wf(),
            *final(self) == *old(self),
            ({
                let i = old(memory)@.image as int;
                let x = t_x(inst@) as int;
                if i + x < FOUR_K {
                    r == Ok::<(), Fault>(()) && final(memory)@ == (MemView {
                        ram: ram_after_store(old(memory)@.ram, i, old(memory)@.regs, x),
                        image: (i + x + 1) as u16,
                        ..old(memory)@
                    })
                } else {
                    r == Err::<(), Fault>(Fault::OutOfBounds((i + x) as u32)) && final(memory)@
                        == old(memory)@
                }
            }),
    {
        let (reg, _) = inst.one();
        let i = memory.registers.image as usize;
        if i + reg as usize >= FOUR_K {
            return Err(Fault::OutOfBounds((i + reg as usize) as u32));
        }
        let mut c: u8 = 0;
        while c <= reg
            invariant
                c <= reg + 1,
                reg < 16,
                i + reg < FOUR_K,
                i == old(memory)@.image,
                reg == t_x(inst@),
                memory.wf(),
                memory.registers == old(memory).registers,
                memory.framebuffer == old(memory).framebuffer,
                memory.stack == old(memory).stack,
                memory.key_state == old(memory).key_state,
                forall|k: int|
                    0 <= k < FOUR_K ==> memory.ram@[k] == (if i <= k < i + c {
                        old(memory)@.regs[k - i]
                    } else {
                        old(memory)@.ram[k]
                    }),
            decreases reg + 1 - c,
        {
            let v = memory.registers.get(c);
            memory.ram.set(i + c as usize, v);
            c += 1;
        }
        memory.registers.image = (i as u16) + reg as u16 + 1;
        proof {
            assert(memory.ram@ =~= ram_after_store(
                old(memory)@.ram,
                i as int,
                old(memory)@.regs,
                reg as int,
            ));
            assert(memory@ =~= (MemView {
                ram: ram_after_store(old(memory)@.ram, i as int, old(memory)@.regs, reg as int),
                image: (i + reg + 1) as u16,
                ..old(memory)@
            }));
        }
        Ok(())
    }

    /// Load registers zero through the index field from the address
    /// register onward; the address register moves past the block.
    /// Reaching past the end of memory is fatal and changes nothing.
    pub fn load_registers(&mut self, inst: Instruction<Three>, memory: &mut Memory) -> (r: Result<
        (),
        Fault,
    >)
        requires
            old(memory).wf(),
        ensures
            final(memory).wf(),
            *final(self) == *old(self),
            ({
                let i = old(memory)@.image as int;
                let x = t_x(inst@) as int;
                if i + x < FOUR_K {
                    r == Ok::<(), Fault>(()) && final(memory)@ == (MemView {
                        regs: regs_after_load(old(memory)@.regs, old(memory)@.ram, i, x),
                        image: (i + x + 1) as u16,
                        ..old(memory)@
                    })
                } else {
                    r == Err::<(), Fault>(Fault::OutOfBounds((i + x) as u32)) && final(memory)@
                        == old(memory)@
                }
            }),
    {
        let (reg, _) = inst.one();
        let i = memory.registers.image as usize;
        if i + reg as usize >= FOUR_K {
            return Err(Fault::OutOfBounds((i + reg as usize) as u32));
        }
        let mut c: u8 = 0;
        while c <= reg
            invariant
                c <= reg + 1,
                reg < 16,
                i + reg < FOUR_K,
                i == old(memory)@.image,
                reg == t_x(inst@),
                memory.wf(),
                memory.ram == old(memory).ram,
                memory.framebuffer == old(memory).framebuffer,
                memory.stack == old(memory).stack,
                memory.key_state == old(memory).key_state,
                memory.registers.image == old(memory).registers.image,
                forall|k: int|
                    0 <= k < 16 ==> memory.registers@[k] == (if 0 <= k < c {
                        old(memory)@.ram[i + k]
                    } else {
                        old(memory)@.regs[k]
                    }),
            decreases reg + 1 - c,
        {
            let v = memory.ram[i + c as usize];
            memory.registers.set(c, v);
            c += 1;
        }
        memory.registers.image = (i as u16) + reg as u16 + 1;
        proof {
            assert(memory.registers@ =~= regs_after_load(
                old(memory)@.regs,
                old(memory)@.ram,
                i as int,
                reg as int,
            ));
            assert(memory@ =~= (MemView {
                regs: regs_after_load(old(memory)@.regs, old(memory)@.ram, i as int, reg as int),
                image: (i + reg + 1) as u16,
                ..old(memory)@
            }));
        }
        Ok(())
    }

    /// Draw a sprite of the height field's rows, read from memory at the
    /// address register, at the position held by the two registers; the
    /// flag register reports whether a lit pixel was turned off.  A sprite
    /// reaching past the end of memory is fatal and changes nothing.
    pub fn draw(&mut self, inst: Instruction<Three>, memory: &mut Memory) -> (r: Result<(), Fault>)
        requires
            old(memory).wf(),
        ensures
            final(memory).wf(),
            *final(self) == *old(self),
            ({
                let x = t_x(inst@) as int;
                let y = t_y(inst@) as int;
                let n = t_n(inst@) as int;
                let i = old(memory)@.image as int;
                let vx = old(memory)@.regs[x];
                let vy = old(memory)@.regs[y];
                let rows = old(memory)@.ram.subrange(i, i + n);
                if i + n <= FOUR_K {
                    r == Ok::<(), Fault>(()) && final(memory)@ == (MemView {
                        fb: draw_sprite(old(memory)@.fb, vx as int, vy as int, rows),
                        regs: old(memory)@.regs.update(
                            15,
                            if sprite_collides(old(memory)@.fb, vx as int, vy as int, rows) {
                                1u8
                            } else {
                                0u8
                            },
                        ),
                        ..old(memory)@
                    })
                } else {
                    r == Err::<(), Fault>(Fault::OutOfBounds((i + n - 1) as u32)) && final(memory)@ == old(memory)@
                }
            }),
    {
        proof {
            lemma_three_fields(inst@);
        }
        let (reg1, rest) = inst.one();
        let (reg2, rest2) = rest.one();
        let (height, _) = rest2.one();
        let vx = memory.registers.get(reg1);
        let vy = memory.registers.get(reg2);
        let i = memory.registers.image as usize;
        let n = height as usize;
        if i + n > FOUR_K {
            return Err(Fault::OutOfBounds((i + n - 1) as u32));
        }
        let mut sprite: Vec<u8> = Vec::new();
        let mut k: usize = 0;
        while k < n
            invariant
                k <= n,
                i + n <= FOUR_K,
                *memory == *old(memory),
                memory.wf(),
                sprite@.len() == k,
                forall|kk: int| 0 <= kk < k ==> sprite@[kk] == memory.ram@[i + kk],
            decreases n - k,
        {
            let b = memory.ram[i + k];
            sprite.push(b);
            k += 1;
        }
        proof {
            assert(sprite@ =~= old(memory)@.ram.subrange(i as int, i as int + n as int));
        }
        let collided = memory.framebuffer.write(vx as usize, vy as usize, sprite.as_slice());
        memory.registers.set(Register::VF.index(), if collided { 1 } else { 0 });
        proof {
            assert(memory@ =~= (MemView {
                fb: draw_sprite(
                    old(memory)@.fb,
                    vx as int,
                    vy as int,
                    old(memory)@.ram.subrange(i as int, i as int + n as int),
                ),
                regs: old(memory)@.regs.update(
                    15,
                    if sprite_collides(
                        old(memory)@.fb,
                        vx as int,
                        vy as int,
                        old(memory)@.ram.subrange(i as int, i as int + n as int),
                    ) {
                        1u8
                    } else {
                        0u8
                    },
                ),
                ..old(memory)@
            }));
        }
        Ok(())
    }

    /// The arithmetic family: dispatch on the low nibble.  An unknown
    /// pattern is fatal and changes nothing.
    pub fn eighth(&mut self, inst: Instruction<Three>, memory: &mut Memory) -> (r: Result<
        (),
        Fault,
    >)
        requires
            old(memory).wf(),
        ensures
            final(memory).wf(),
            *final(self) == *old(self),
            ({
                match alu_result(
                    t_n(inst@),
                    t_x(inst@) as int,
                    t_y(inst@) as int,
                    old(memory)@.regs,
                ) {
                    Some(regs) => r == Ok::<(), Fault>(()) && final(memory)@ == (MemView {
                        regs,
                        ..old(memory)@
                    }),
                    None => r == Err::<(), Fault>(Fault::IllegalInstruction) && final(memory)@
                        == old(memory)@,
                }
            }),
    {
        proof {
            lemma_three_fields(inst@);
        }
        let (_, opn) = inst.two();
        let (sub, _) = opn.one();
        match sub {
            0x0 => {
                self.set_reg_reg(inst, memory);
                Ok(())
            },
            0x1 => {
                self.or_reg_reg(inst, memory);
                Ok(())
            },
            0x2 => {
                self.and_reg_reg(inst, memory);
                Ok(())
            },
            0x3 => {
                self.xor_reg_reg(inst, memory);
                Ok(())
            },
            0x4 => {
                self.add_reg_reg(inst, memory);
                Ok(())
            },
            0x5 => {
                self.sub_reg_reg(inst, memory);
                Ok(())
            },
            0x6 => {
                self.shr_reg_reg(inst, memory);
                Ok(())
            },
            0x7 => {
                self.subn_reg_reg(inst, memory);
                Ok(())
            },
            0xE => {
                self.shl_reg_reg(inst, memory);
                Ok(())
            },
            _ => Err(Fault::IllegalInstruction),
        }
    }

    /// Skip when the key named by the register is held down.  A register
    /// value outside the sixteen symbols is fatal: it marks a decoder or
    /// program defect, never wrapped silently.
    pub fn skip_if_key_pressed(&mut self, inst: Instruction<Three>, memory: &Memory) -> (r: Result<
        (),
        Fault,
    >)
        requires
            memory.wf(),
            old(self).program_counter + 2 <= u16::MAX,
        ensures
            final(self).timers == old(self).timers,
            ({
                let key = memory@.regs[t_x(inst@) as int];
                if key < 16 {
                    r == Ok::<(), Fault>(()) && final(self).program_counter == skipped(
                        old(self).program_counter,
                        pressed_bit(memory@.keys, key as u16),
                    )
                } else {
                    r == Err::<(), Fault>(Fault::InvalidKey) && *final(self) == *old(self)
                }
            }),
    {
        let (reg, _) = inst.one();
        let key = memory.registers.get(reg);
        if key > 15 {
            return Err(Fault::InvalidKey);
        }
        if memory.key_state.is_set(Key::from_value(key)) {
            self.program_counter += 2;
        }
        Ok(())
    }

    /// Skip when the key named by the register is not held down.  A
    /// register value outside the sixteen symbols is fatal.
    pub fn skip_if_key_not_pressed(
        &mut self,
        inst: Instruction<Three>,
        memory: &Memory,
    ) -> (r: Result<(), Fault>)
        requires
            memory.wf(),
            old(self).program_counter + 2 <= u16::MAX,
        ensures
            final(self).timers == old(self).timers,
            ({
                let key = memory@.regs[t_x(inst@) as int];
                if key < 16 {
                    r == Ok::<(), Fault>(()) && final(self).program_counter == skipped(
                        old(self).program_counter,
                        !pressed_bit(memory@.keys, key as u16),
                    )
                } else {
                    r == Err::<(), Fault>(Fault::InvalidKey) && *final(self) == *old(self)
                }
            }),
    {
        let (reg, _) = inst.one();
        let key = memory.registers.get(reg);
        if key > 15 {
            return Err(Fault::InvalidKey);
        }
        if !memory.key_state.is_set(Key::from_value(key)) {
            self.program_counter += 2;
        }
        Ok(())
    }

    /// The key-skip family: dispatch on the low byte.  An unknown pattern
    /// is fatal and changes nothing.
    pub fn eth(&mut self, inst: Instruction<Three>, memory: &mut Memory) -> (r: Result<(), Fault>)
        requires
            old(memory).wf(),
            old(self).program_counter + 2 <= u16::MAX,
        ensures
            final(memory).wf(),
            final(memory)@ == old(memory)@,
            final(self).timers == old(self).timers,
            ({
                let pre = old(self).pre_state(old(memory)@);
                match key_skip_result(t_kk(inst@), t_x(inst@) as int, pre) {
                    StepOutcome::Next { s, waiting } => r == Ok::<(), Fault>(()) && !waiting
                        && final(self).program_counter == s.pc,
                    StepOutcome::Fail { f } => r == Err::<(), Fault>(f) && *final(self) == *old(self),
                }
            }),
    {
        proof {
            lemma_three_fields(inst@);
        }
        let (_, rest) = inst.one();
        let (kk, _) = rest.two();
        match kk {
            0x9E => self.skip_if_key_pressed(inst, memory),
            0xA1 => self.skip_if_key_not_pressed(inst, memory),
            _ => Err(Fault::IllegalInstruction),
        }
    }

    /// The miscellaneous family: dispatch on the low byte.  Reports
    /// whether the instruction was the wait-for-key, whose register write
    /// is deferred until the host hands in the key.  An unknown pattern is
    /// fatal and changes nothing.
    pub fn fth(&mut self, inst: Instruction<Three>, memory: &mut Memory) -> (r: Result<bool, Fault>)
        requires
            old(memory).wf(),
        ensures
            final(memory).wf(),
            final(self).program_counter == old(self).program_counter,
            final(self).timers.last_tick == old(self).timers.last_tick,
            ({
                let pre = old(self).pre_state(old(memory)@);
                match misc_result(t_kk(inst@), t_x(inst@) as int, pre) {
                    StepOutcome::Next { s, waiting } => r == Ok::<bool, Fault>(waiting) && final(memory)@ == s.mem && final(self).timers.delay_timer == s.delay && final(self).timers.sound_timer == s.sound,
                    StepOutcome::Fail { f } => r == Err::<bool, Fault>(f) && final(memory)@ == old(memory)@ && *final(self) == *old(self),
                }
            }),
    {
        proof {
            lemma_three_fields(inst@);
        }
        let (_, rest) = inst.one();
        let (kk, _) = rest.two();
        match kk {
            0x07 => {
                self.get_delay_timer(inst, memory);
                Ok(false)
            },
            0x0A => Ok(true),
            0x15 => {
                self.set_delay_timer(inst, memory);
                Ok(false)
            },
            0x18 => {
                self.set_sound_timer(inst, memory);
                Ok(false)
            },
            0x1E => {
                self.add_to_i(inst, memory)?;
                Ok(false)
            },
            0x29 => {
                self.set_i_to_sprite(inst, memory);
                Ok(false)
            },
            0x33 => {
                self.store_bcd(inst, memory)?;
                Ok(false)
            },
            0x55 => {
                self.store_registers(inst, memory)?;
                Ok(false)
            },
            0x65 => {
                self.load_registers(inst, memory)?;
                Ok(false)
            },
            _ => Err(Fault::IllegalInstruction),
        }
    }
}

/// The dispatch table, whole: what one fetched word does to the machine
/// state.  The random byte drawn by the randomness instruction is a
/// parameter, since it is the one input the machine does not determine.
pub open spec fn step_spec(op: u16, rnd: u8, pre: StepState) -> StepOutcome {
    let id = op_id(op);
    let x = op_x(op) as int;
    let y = op_y(op) as int;
    let kk = op_kk(op);
    let nnn = op_nnn(op);
    let m = pre.mem;
    let vx = m.regs[x];
    let vy = m.regs[y];
    if id == 0x0 {
        zero_result(kk, pre)
    } else if id == 0x1 {
        next(StepState { pc: nnn, ..pre })
    } else if id == 0x2 {
        if m.stack.len() < STACK_CAPACITY {
            next(StepState { mem: MemView { stack: m.stack.push(pre.pc), ..m }, pc: nnn, ..pre })
        } else {
            fail(Fault::StackOverflow)
        }
    } else if id == 0x3 {
        next(StepState { pc: skipped(pre.pc, vx == kk), ..pre })
    } else if id == 0x4 {
        next(StepState { pc: skipped(pre.pc, vx != kk), ..pre })
    } else if id == 0x5 {
        next(StepState { pc: skipped(pre.pc, vx == vy), ..pre })
    } else if id == 0x6 {
        next(StepState { mem: MemView { regs: m.regs.update(x, kk as u8), ..m }, ..pre })
    } else if id == 0x7 {
        next(
            StepState {
                mem: MemView { regs: m.regs.update(x, wrap_add(vx, kk as u8)), ..m },
                ..pre
            },
        )
    } else if id == 0x8 {
        match alu_result(op_n(op), x, y, m.regs) {
            Some(regs) => next(StepState { mem: MemView { regs, ..m }, ..pre }),
            None => fail(Fault::IllegalInstruction),
        }
    } else if id == 0x9 {
        next(StepState { pc: skipped(pre.pc, vx != vy), ..pre })
    } else if id == 0xA {
        next(StepState { mem: MemView { image: nnn, ..m }, ..pre })
    } else if id == 0xB {
        next(StepState { pc: (m.regs[0] + nnn) as u16, ..pre })
    } else if id == 0xC {
        next(StepState { mem: MemView { regs: m.regs.update(x, rnd & (kk as u8)), ..m }, ..pre })
    } else if id == 0xD {
        let i = m.image as int;
        let n = op_n(op) as int;
        let rows = m.ram.subrange(i, i + n);
        if i + n <= FOUR_K {
            next(
                StepState {
                    mem: MemView {
                        fb: draw_sprite(m.fb, vx as int, vy as int, rows),
                        regs: m.regs.update(
                            15,
                            if sprite_collides(m.fb, vx as int, vy as int, rows) {
                                1u8
                            } else {
                                0u8
                            },
                        ),
                        ..m
                    },
                    ..pre
                },
            )
        } else {
            fail(Fault::OutOfBounds((i + n - 1) as u32))
        }
    } else if id == 0xE {
        key_skip_result(kk, x, pre)
    } else {
        misc_result(kk, x, pre)
    }
}

/// Whether the observable result of one whole cycle - dispatch, program
/// counter advance by two, one timer tick, and the duties handed to the
/// host - matches the dispatch table for the fetched word `op` and the
/// random byte `rnd`.
pub open spec fn cycle_matches(
    op: u16,
    rnd: u8,
    pre: StepState,
    last_tick: u128,
    now: u128,
    post_mem: MemView,
    post_cpu: Cpu,
    out: CycleOutcome,
) -> bool {
    match step_spec(op, rnd, pre) {
        StepOutcome::Next { s, waiting } => {
            let t1 = Timers { delay_timer: s.delay, sound_timer: s.sound, last_tick };
            let t2 = ticked(t1, now);
            &&& post_mem == s.mem
            &&& post_cpu.program_counter == s.pc + 2
            &&& post_cpu.timers == t2
            &&& (waiting ==> (out.waiting_for_key matches Some(i) && i@ == (op << 4)))
            &&& (!waiting ==> out.waiting_for_key is None)
            &&& out.start_beep == (op_id(op) == 0xF && op_kk(op) == 0x18 && s.sound > 0)
            &&& out.stop_beep == (tick_report(t1, now) matches Some(d)
                && d.sound && t2.sound_timer == 0)
        },
        StepOutcome::Fail { .. } => false,
    }
}

/// The condition a skip instruction tests: register against immediate,
/// register against register, or a keypad symbol held down or not.
pub open spec fn skip_condition(op: u16, pre: StepState) -> bool {
    let vx = pre.mem.regs[op_x(op) as int];
    let vy = pre.mem.regs[op_y(op) as int];
    let kk = op_kk(op);
    if op_id(op) == 0x3 {
        vx == kk
    } else if op_id(op) == 0x4 {
        vx != kk
    } else if op_id(op) == 0x5 {
        vx == vy
    } else if op_id(op) == 0x9 {
        vx != vy
    } else if kk == 0x9E {
        pressed_bit(pre.mem.keys, vx as u16)
    } else {
        !pressed_bit(pre.mem.keys, vx as u16)
    }
}

/// A skip instruction advances the program counter by exactly four in
/// total when its condition holds, and by exactly two otherwise: the
/// dispatch step applies the extra two, and the cycle's own advance
/// applies the base two.
pub proof fn lemma_skip_total_advance(op: u16, rnd: u8, pre: StepState)
    requires
        op_id(op) == 0x3 || op_id(op) == 0x4 || op_id(op) == 0x5 || op_id(op) == 0x9 || (op_id(op)
            == 0xE && (op_kk(op) == 0x9E || op_kk(op) == 0xA1) && pre.mem.regs[op_x(op) as int]
            < 16),
        pre.pc + 4 <= u16::MAX,
    ensures
        step_spec(op, rnd, pre) matches StepOutcome::Next { s, waiting } && !waiting && s.pc + 2
            == pre.pc + (if skip_condition(op, pre) {
            4int
        } else {
            2int
        }),
{
}

impl Cpu {
    /// One cycle: fetch the word at the program counter, dispatch it,
    /// advance the program counter by two - a skip has already applied its
    /// extra two during dispatch - and tick the timers once.  The outcome
    /// carries the host's duties: the tone edges and the deferred key
    /// wait.  A fault aborts the cycle with everything unchanged.
    pub fn execute(&mut self, memory: &mut Memory, now_nanos: u128) -> (r: Result<
        CycleOutcome,
        Fault,
    >)
        requires
            old(memory).wf(),
            old(self).program_counter as int + 1 < FOUR_K,
        ensures
            final(memory).wf(),
            ({
                let op = Memory::fetch_spec(old(memory)@, old(self).program_counter);
                let pre = old(self).pre_state(old(memory)@);
                match r {
                    Ok(out) => exists|rnd: u8|
                        cycle_matches(
                            op,
                            rnd,
                            pre,
                            old(self).timers.last_tick,
                            now_nanos,
                            final(memory)@,
                            *final(self),
                            out,
                        ),
                    Err(f) => step_spec(op, 0, pre) == fail(f) && final(memory)@ == old(memory)@
                        && *final(self) == *old(self),
                }
            }),
    {
        let ghost pre = old(self).pre_state(old(memory)@);
        let inst4 = memory.fetch(self.program_counter);
        let ghost op = inst4@;
        proof {
            self::instruction::lemma_residue_fields(op);
            self::instruction::lemma_fields_consistent(op);
            lemma_three_fields((op << 4) as u16);
        }
        let (id, inst) = inst4.one();
        let mut waiting = false;
        match id {
            0x0 => {
                self.zeroth(inst, memory)?;
            },
            0x1 => {
                self.jump(inst);
            },
            0x2 => {
                self.call(inst, memory)?;
            },
            0x3 => {
                self.skip_if_equal(inst, memory);
            },
            0x4 => {
                self.skip_if_not_equal(inst, memory);
            },
            0x5 => {
                self.skip_if_equal_reg(inst, memory);
            },
            0x6 => {
                self.set_reg(inst, memory);
            },
            0x7 => {
                self.add_reg(inst, memory);
            },
            0x8 => {
                self.eighth(inst, memory)?;
            },
            0x9 => {
                self.skip_if_not_equal_reg(inst, memory);
            },
            0xA => {
                self.set_i(inst, memory);
            },
            0xB => {
                self.jump_reg(inst, memory);
            },
            0xC => {
                self.rand(inst, memory);
            },
            0xD => {
                self.draw(inst, memory)?;
            },
            0xE => {
                self.eth(inst, memory)?;
            },
            0xF => {
                waiting = self.fth(inst, memory)?;
            },
            _ => {
                proof {
                    assert(false);
                }
            },
        }
        self.program_counter = self.program_counter + 2;
        let (_, r1) = inst.one();
        let (kkv, _) = r1.two();
        let start_beep = id == 0xF && kkv == 0x18 && self.timers.sound() > 0;
        let report = self.timers.count_down(now_nanos);
        let stop_beep = match report {
            Some(d) => d.sound && self.timers.sound() == 0,
            None => false,
        };
        let out = CycleOutcome {
            start_beep,
            stop_beep,
            waiting_for_key: if waiting {
                Some(inst)
            } else {
                None
            },
        };
        proof {
            if op_id(op) == 0xC {
                let b = choose|b: u8|
                    #![trigger (b & (t_kk((op << 4u16) as u16) as u8))]
                    memory@ == (MemView {
                        regs: pre.mem.regs.update(
                            t_x((op << 4) as u16) as int,
                            b & (t_kk((op << 4u16) as u16) as u8),
                        ),
                        ..pre.mem
                    });
                assert(cycle_matches(
                    op,
                    b,
                    pre,
                    old(self).timers.last_tick,
                    now_nanos,
                    memory@,
                    *self,
                    out,
                ));
            } else {
                assert(cycle_matches(
                    op,
                    0,
                    pre,
                    old(self).timers.last_tick,
                    now_nanos,
                    memory@,
                    *self,
                    out,
                ));
            }
        }
        Ok(out)
    }
}

} // verus!
